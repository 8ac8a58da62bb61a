//! Deletion vectors in the Puffin format.
//!
//! A deletion vector is a roaring bitmap of row positions to leave out when a
//! Parquet file is read. On disk it is the blob `deletion-vector-v1` of a
//! Puffin file:
//!
//! ```text
//! magic "PFA1" | blob | footer JSON (UTF-8) | footer length (i32 LE) | magic
//! ```

use roaring::RoaringBitmap;
use serde_json::Value;
use vstd::prelude::*;
use vstd::string::*;
use vstd::utf8::*;

use crate::json::{
    JsonReading, JsonTree, can_be_record, json_array, json_i64, json_object, json_string,
    parse_json, print_json, read_field, read_i64, read_str,
};
use crate::text::{dec_i64, dec_u64, joined, same_text, utf8_text};
use crate::types::error::{ErrorView, MeruError, Result};
use crate::wire::push_all;

verus! {

/// A compressed bitmap of the `roaring` crate.
#[verifier::external_type_specification]
#[verifier::external_body]
pub struct ExRoaringBitmap(RoaringBitmap);

/// The positions that a bitmap holds.
pub uninterp spec fn bitmap_rows(b: RoaringBitmap) -> Set<u32>;

/// How many bytes a bitmap takes when it is written. This depends on how the
/// bitmap lies in memory, not on its positions alone.
pub uninterp spec fn bitmap_size(b: RoaringBitmap) -> nat;

/// What reading bytes as a bitmap gives.
pub enum BitmapReading {
    /// The positions of the bitmap that the bytes start with.
    Rows(Set<u32>),
    /// The bytes are no bitmap; what the reader says of them.
    Failure(Seq<char>),
}

/// What `RoaringBitmap::deserialize_from` makes of a byte string.
pub uninterp spec fn bitmap_decoded(bytes: Seq<u8>) -> BitmapReading;

/// `RoaringBitmap::new`: a bitmap without positions.
pub assume_specification[ RoaringBitmap::new ]() -> (r: RoaringBitmap)
    ensures
        bitmap_rows(r) == Set::<u32>::empty(),
;

/// `RoaringBitmap::insert`: adds one position, and says whether it was new.
pub assume_specification[ RoaringBitmap::insert ](b: &mut RoaringBitmap, value: u32) -> (r: bool)
    ensures
        bitmap_rows(*final(b)) == bitmap_rows(*old(b)).insert(value),
        r == !bitmap_rows(*old(b)).contains(value),
;

/// `RoaringBitmap::contains`: whether the position is held.
pub assume_specification[ RoaringBitmap::contains ](b: &RoaringBitmap, value: u32) -> (r: bool)
    ensures
        r == bitmap_rows(*b).contains(value),
;

/// `RoaringBitmap::len`: how many positions are held.
pub assume_specification[ RoaringBitmap::len ](b: &RoaringBitmap) -> (r: u64)
    ensures
        r == bitmap_rows(*b).len(),
;

/// `RoaringBitmap::is_empty`: whether no position is held.
pub assume_specification[ RoaringBitmap::is_empty ](b: &RoaringBitmap) -> (r: bool)
    ensures
        r == (bitmap_rows(*b) == Set::<u32>::empty()),
;

/// `RoaringBitmap::serialized_size`: how many bytes the bitmap takes when it is
/// written.
pub assume_specification[ RoaringBitmap::serialized_size ](b: &RoaringBitmap) -> (r: usize)
    ensures
        r == bitmap_size(*b),
;

/// Calls `RoaringBitmap`'s `|=`: afterwards the bitmap holds what either held.
#[verifier::external_body]
fn bitmap_union(b: &mut RoaringBitmap, other: &RoaringBitmap)
    ensures
        bitmap_rows(*final(b)) == bitmap_rows(*old(b)).union(bitmap_rows(*other)),
{
    *b |= other;
}

/// Calls `RoaringBitmap::clone`: a bitmap of the same positions, which lies in
/// memory in the same way.
#[verifier::external_body]
fn bitmap_clone(b: &RoaringBitmap) -> (r: RoaringBitmap)
    ensures
        bitmap_rows(r) == bitmap_rows(*b),
        bitmap_size(r) == bitmap_size(*b),
{
    b.clone()
}

/// Calls `RoaringBitmap::serialize_into` with a growing buffer. The format
/// counts offsets in 32 bits, and adding them up beyond that panics, so a
/// larger bitmap is left out. The call then fails only where the writer fails,
/// and appending to a `Vec` does not. It writes as many bytes as
/// `RoaringBitmap::serialized_size` says, and `RoaringBitmap::deserialize_from`
/// reads them back as the same positions. The bytes themselves depend on how
/// the bitmap lies in memory and are not stated.
#[verifier::external_body]
fn bitmap_encode(b: &RoaringBitmap) -> (r: std::result::Result<Vec<u8>, String>)
    requires
        bitmap_size(*b) <= u32::MAX,
    ensures
        r is Ok,
        bitmap_decoded(r->Ok_0@) == BitmapReading::Rows(bitmap_rows(*b)),
        r->Ok_0@.len() == bitmap_size(*b),
{
    let mut out: Vec<u8> = Vec::new();
    b.serialize_into(&mut out).map_err(|e| e.to_string())?;
    Ok(out)
}

/// Calls `RoaringBitmap::deserialize_from`. What it returns is a function of
/// the bytes alone.
#[verifier::external_body]
fn bitmap_decode(bytes: &[u8]) -> (r: std::result::Result<RoaringBitmap, String>)
    ensures
        match r {
            Ok(b) => bitmap_decoded(bytes@) == BitmapReading::Rows(bitmap_rows(b)),
            Err(m) => bitmap_decoded(bytes@) == BitmapReading::Failure(m@),
        },
{
    RoaringBitmap::deserialize_from(bytes).map_err(|e| e.to_string())
}

/// The four bytes that open and close a Puffin file.
pub open spec fn puffin_magic() -> Seq<u8> {
    seq![0x50u8, 0x46u8, 0x41u8, 0x31u8]
}

/// The length of the shortest Puffin file: two magics and a footer length.
pub const PUFFIN_MIN_SIZE: usize = 12;

/// The signed number that four little-endian bytes denote.
pub open spec fn le_i32(b: Seq<u8>) -> int {
    let u = b[0] + 256 * b[1] + 65536 * b[2] + 16777216 * b[3];
    if u < 0x8000_0000 {
        u
    } else {
        u - 0x1_0000_0000
    }
}

/// `n` as 64 unsigned bits.
pub open spec fn as_unsigned(n: i64) -> int {
    if n < 0 {
        n + 0x1_0000_0000_0000_0000
    } else {
        n as int
    }
}

/// What the footer says of one blob.
#[verifier::ext_equal]
pub struct BlobView {
    pub kind: Seq<char>,
    pub data_file: Seq<char>,
    pub snapshot_id: i64,
    pub sequence_number: i64,
    pub offset: i64,
    pub length: i64,
}

/// The blob entry that `t` is, when it has every field in its type.
pub open spec fn blob_of(t: JsonTree) -> Option<BlobView> {
    let fields = crate::json::field(t, "fields"@, 1);
    if crate::json::is_record(t, 7, 7) && crate::json::str_at(t, "type"@, 0) is Some
        && fields is Some && crate::json::is_record(fields->0, 1, 1)
        && crate::json::str_at(fields->0, "referenced-data-file"@, 0) is Some
        && crate::json::i64_at(t, "snapshot-id"@, 2) is Some
        && crate::json::i64_at(t, "sequence-number"@, 3) is Some
        && crate::json::i64_at(t, "offset"@, 4) is Some
        && crate::json::i64_at(t, "length"@, 5) is Some
        && crate::json::optional_str_at(t, "compression-codec"@, 6) {
        Some(
            BlobView {
                kind: crate::json::str_at(t, "type"@, 0)->0,
                data_file: crate::json::str_at(fields->0, "referenced-data-file"@, 0)->0,
                snapshot_id: crate::json::i64_at(t, "snapshot-id"@, 2)->0,
                sequence_number: crate::json::i64_at(t, "sequence-number"@, 3)->0,
                offset: crate::json::i64_at(t, "offset"@, 4)->0,
                length: crate::json::i64_at(t, "length"@, 5)->0,
            },
        )
    } else {
        None
    }
}

/// Whether `t` is a footer: an array `blobs` of blob entries, and an object
/// `properties` or none.
pub open spec fn is_footer(t: JsonTree) -> bool {
    &&& crate::json::is_record(t, 1, 2)
    &&& crate::json::field(t, "blobs"@, 0) matches Some(JsonTree::Arr(items)) && forall|i: int|
        0 <= i < items.len() ==> blob_of(#[trigger] items[i]) is Some
    &&& crate::json::field(t, "properties"@, 1) matches Some(p) ==> p is Obj
}

/// The blob entries of the footer `t`.
pub open spec fn footer_blobs(t: JsonTree) -> Seq<BlobView> {
    let items = crate::json::field(t, "blobs"@, 0)->0->Arr_0;
    Seq::new(items.len(), |i: int| blob_of(items[i])->0)
}

/// What is wrong with the frame or the footer of a Puffin file.
pub enum FooterFault {
    TooShort,
    NoOpeningMagic,
    NoClosingMagic,
    NegativeLength(i64),
    LengthTooLarge(u64),
    NotUtf8(String),
    NotJson(String),
}

/// A [`FooterFault`] with each text as a sequence of characters.
pub enum FaultView {
    TooShort,
    NoOpeningMagic,
    NoClosingMagic,
    NegativeLength(i64),
    LengthTooLarge(u64),
    NotUtf8(Seq<char>),
    NotJson(Seq<char>),
}

impl View for FooterFault {
    type V = FaultView;

    open spec fn view(&self) -> FaultView {
        match self {
            FooterFault::TooShort => FaultView::TooShort,
            FooterFault::NoOpeningMagic => FaultView::NoOpeningMagic,
            FooterFault::NoClosingMagic => FaultView::NoClosingMagic,
            FooterFault::NegativeLength(n) => FaultView::NegativeLength(*n),
            FooterFault::LengthTooLarge(n) => FaultView::LengthTooLarge(*n),
            FooterFault::NotUtf8(m) => FaultView::NotUtf8(m@),
            FooterFault::NotJson(m) => FaultView::NotJson(m@),
        }
    }
}

/// What the end of a byte string says as a Puffin footer.
pub enum FooterReading {
    Blobs(Seq<BlobView>),
    Fault(FaultView),
}

/// The footer length that the bytes before the closing magic give.
pub open spec fn footer_length(data: Seq<u8>) -> int {
    le_i32(data.subrange(data.len() - 8, data.len() - 4))
}

/// The bytes of the footer.
pub open spec fn footer_bytes(data: Seq<u8>) -> Seq<u8> {
    data.subrange(data.len() - 8 - footer_length(data), data.len() - 8)
}

/// Reads the footer of `data`, naming the first thing that is wrong.
pub open spec fn footer_reading(data: Seq<u8>) -> FooterReading {
    if data.len() < PUFFIN_MIN_SIZE {
        FooterReading::Fault(FaultView::TooShort)
    } else if data.take(4) != puffin_magic() {
        FooterReading::Fault(FaultView::NoOpeningMagic)
    } else if data.skip(data.len() - 4) != puffin_magic() {
        FooterReading::Fault(FaultView::NoClosingMagic)
    } else if footer_length(data) < 0 {
        FooterReading::Fault(FaultView::NegativeLength(footer_length(data) as i64))
    } else if footer_length(data) > data.len() - PUFFIN_MIN_SIZE {
        FooterReading::Fault(FaultView::LengthTooLarge(footer_length(data) as u64))
    } else if !valid_utf8(footer_bytes(data)) {
        FooterReading::Fault(
            FaultView::NotUtf8(crate::text::utf8_complaint(footer_bytes(data))),
        )
    } else {
        match crate::json::json_parsed(decode_utf8(footer_bytes(data))) {
            JsonReading::Failure(m) => FooterReading::Fault(FaultView::NotJson(m)),
            JsonReading::Document(t) => if is_footer(t) {
                FooterReading::Blobs(footer_blobs(t))
            } else {
                FooterReading::Fault(FaultView::NotJson("missing or mistyped footer field"@))
            },
        }
    }
}

/// One blob entry of a Puffin footer.
pub struct PuffinBlobMeta {
    pub kind: String,
    pub data_file: String,
    pub snapshot_id: i64,
    pub sequence_number: i64,
    pub offset: i64,
    pub length: i64,
}

impl View for PuffinBlobMeta {
    type V = BlobView;

    open spec fn view(&self) -> BlobView {
        BlobView {
            kind: self.kind@,
            data_file: self.data_file@,
            snapshot_id: self.snapshot_id,
            sequence_number: self.sequence_number,
            offset: self.offset,
            length: self.length,
        }
    }
}

/// The blob entry that `v` is, when it has every field in its type.
fn read_blob(v: &Value) -> (r: Option<PuffinBlobMeta>)
    ensures
        match r {
            Some(b) => blob_of(crate::json::json_tree(*v)) == Some(b@),
            None => blob_of(crate::json::json_tree(*v)) is None,
        },
{
    if !can_be_record(v, 7, 7) {
        return None;
    }
    let kind = match read_str(v, "type", 0) {
        Some(s) => s,
        None => return None,
    };
    let data_file = match read_field(v, "fields", 1) {
        Some(fields) => {
            if !can_be_record(fields, 1, 1) {
                return None;
            }
            match read_str(fields, "referenced-data-file", 0) {
                Some(s) => s,
                None => return None,
            }
        },
        None => return None,
    };
    let snapshot_id: i64 = match read_i64(v, "snapshot-id", 2) {
        Some(n) => n,
        None => return None,
    };
    let sequence_number: i64 = match read_i64(v, "sequence-number", 3) {
        Some(n) => n,
        None => return None,
    };
    let offset: i64 = match read_i64(v, "offset", 4) {
        Some(n) => n,
        None => return None,
    };
    let length: i64 = match read_i64(v, "length", 5) {
        Some(n) => n,
        None => return None,
    };
    match read_field(v, "compression-codec", 6) {
        Some(codec) => {
            if !codec.is_null() && codec.as_str().is_none() {
                return None;
            }
        },
        None => {},
    }
    Some(PuffinBlobMeta { kind, data_file, snapshot_id, sequence_number, offset, length })
}

/// The views of a row of blob entries.
pub open spec fn blob_views(blobs: Seq<PuffinBlobMeta>) -> Seq<BlobView> {
    Seq::new(blobs.len(), |i: int| blobs[i]@)
}

/// The blob entries of the footer that `v` is, `None` when it is no footer.
fn read_blobs(v: &Value) -> (r: Option<Vec<PuffinBlobMeta>>)
    ensures
        match r {
            Some(blobs) => is_footer(crate::json::json_tree(*v)) && footer_blobs(
                crate::json::json_tree(*v),
            ) == blob_views(blobs@),
            None => !is_footer(crate::json::json_tree(*v)),
        },
{
    if !can_be_record(v, 1, 2) {
        return None;
    }
    let items: &Vec<Value> = match read_field(v, "blobs", 0) {
        Some(x) => match x.as_array() {
            Some(items) => items,
            None => return None,
        },
        None => return None,
    };
    let ghost trees = crate::json::field(crate::json::json_tree(*v), "blobs"@, 0)->0->Arr_0;
    let mut blobs: Vec<PuffinBlobMeta> = Vec::new();
    let mut i: usize = 0;
    while i < items.len()
        invariant
            i <= items@.len(),
            blobs@.len() == i,
            trees == Seq::new(items@.len(), |i: int| crate::json::json_tree(items@[i])),
            crate::json::field(crate::json::json_tree(*v), "blobs"@, 0) == Some(
                JsonTree::Arr(trees),
            ),
            forall|k: int| 0 <= k < i ==> blob_of(#[trigger] trees[k]) == Some(blobs@[k]@),
        decreases items@.len() - i,
    {
        match read_blob(&items[i]) {
            Some(b) => {
                assert(blob_of(trees[i as int]) == Some(b@));
                blobs.push(b);
            },
            None => {
                assert(blob_of(trees[i as int]) is None);
                return None;
            },
        }
        i = i + 1;
    }
    match read_field(v, "properties", 1) {
        Some(p) => {
            if !p.is_object() {
                return None;
            }
        },
        None => {},
    }
    assert(footer_blobs(crate::json::json_tree(*v)) =~= blob_views(blobs@));
    Some(blobs)
}

/// Whether the four bytes at `from` are the Puffin magic.
fn magic_at(data: &[u8], from: usize) -> (r: bool)
    requires
        from + 4 <= data@.len(),
    ensures
        r == (data@.subrange(from as int, from + 4) == puffin_magic()),
{
    let ghost part = data@.subrange(from as int, from + 4);
    let r: bool = data[from] == 0x50 && data[from + 1] == 0x46 && data[from + 2] == 0x41
        && data[from + 3] == 0x31;
    proof {
        assert(part[0] == data@[from as int]);
        assert(part[1] == data@[from + 1]);
        assert(part[2] == data@[from + 2]);
        assert(part[3] == data@[from + 3]);
        if r {
            assert(part =~= puffin_magic());
        } else if part == puffin_magic() {
            assert(puffin_magic()[0] == 0x50);
            assert(puffin_magic()[1] == 0x46);
            assert(puffin_magic()[2] == 0x41);
            assert(puffin_magic()[3] == 0x31);
        }
    }
    r
}

/// Reads the footer of a Puffin file, naming the first thing that is wrong. The
/// footer and its parts are objects of their fields, or arrays of them in their
/// order. They are read as an untyped document first, so that of a repeated
/// field the last value counts, a field that is not known must be valid too,
/// and the fault of a missing or mistyped field does not name it.
fn read_footer(data: &[u8]) -> (r: std::result::Result<Vec<PuffinBlobMeta>, FooterFault>)
    ensures
        match r {
            Ok(blobs) => footer_reading(data@) == FooterReading::Blobs(blob_views(blobs@)),
            Err(f) => footer_reading(data@) == FooterReading::Fault(f@),
        },
{
    if data.len() < PUFFIN_MIN_SIZE {
        return Err(FooterFault::TooShort);
    }
    let n: usize = data.len();
    assert(data@.take(4) =~= data@.subrange(0, 4));
    if !magic_at(data, 0) {
        return Err(FooterFault::NoOpeningMagic);
    }
    assert(data@.skip(n - 4) =~= data@.subrange(n - 4, n as int));
    if !magic_at(data, n - 4) {
        return Err(FooterFault::NoClosingMagic);
    }
    let start: usize = n - 8;
    let raw: i64 = data[start] as i64 + 256 * (data[start + 1] as i64) + 65536 * (data[start
        + 2] as i64) + 16777216 * (data[start + 3] as i64);
    let length: i64 = if raw < 0x8000_0000 {
        raw
    } else {
        raw - 0x1_0000_0000
    };
    proof {
        let part = data@.subrange(n - 8, n - 4);
        assert(part[0] == data@[start as int]);
        assert(part[1] == data@[start + 1]);
        assert(part[2] == data@[start + 2]);
        assert(part[3] == data@[start + 3]);
        assert(length == footer_length(data@));
    }
    if length < 0 {
        return Err(FooterFault::NegativeLength(length));
    }
    if length as u64 > (n - PUFFIN_MIN_SIZE) as u64 {
        return Err(FooterFault::LengthTooLarge(length as u64));
    }
    let footer = vstd::slice::slice_subrange(data, start - length as usize, start);
    assert(footer@ == footer_bytes(data@));
    let text = match utf8_text(footer) {
        Ok(t) => t,
        Err(m) => return Err(FooterFault::NotUtf8(m)),
    };
    let v = match parse_json(text) {
        Ok(v) => v,
        Err(m) => return Err(FooterFault::NotJson(m)),
    };
    match read_blobs(&v) {
        Some(blobs) => Ok(blobs),
        None => Err(FooterFault::NotJson("missing or mistyped footer field".to_owned())),
    }
}

/// The type of the blob that holds a deletion vector.
pub open spec fn dv_kind() -> Seq<char> {
    "deletion-vector-v1"@
}

/// The first blob that holds a deletion vector.
pub open spec fn first_dv(blobs: Seq<BlobView>) -> Option<BlobView>
    decreases blobs.len(),
{
    if blobs.len() == 0 {
        None
    } else if blobs[0].kind == dv_kind() {
        Some(blobs[0])
    } else {
        first_dv(blobs.drop_first())
    }
}

/// How reading a deletion vector words a fault.
pub open spec fn decode_fault(f: FaultView) -> ErrorView {
    ErrorView::Corruption(
        match f {
            FaultView::TooShort => "Puffin file too short"@,
            FaultView::NoOpeningMagic => "Puffin file missing opening magic"@,
            FaultView::NoClosingMagic => "Puffin file missing closing magic"@,
            FaultView::NegativeLength(n) => "Puffin footer length is negative: "@
                + crate::text::dec_int(n as int),
            FaultView::LengthTooLarge(n) => "Puffin footer length "@ + crate::text::dec_nat(
                n as nat,
            ) + " exceeds file size"@,
            FaultView::NotUtf8(m) => "Puffin footer not UTF-8: "@ + m,
            FaultView::NotJson(m) => "Puffin footer JSON parse: "@ + m,
        },
    )
}

/// How reading only the footer words a fault.
pub open spec fn footer_fault(f: FaultView) -> ErrorView {
    ErrorView::Corruption(
        match f {
            FaultView::TooShort => "Puffin file too short"@,
            FaultView::NoOpeningMagic => "Puffin magic mismatch"@,
            FaultView::NoClosingMagic => "Puffin magic mismatch"@,
            FaultView::NegativeLength(n) => "Puffin footer length is negative: "@
                + crate::text::dec_int(n as int),
            FaultView::LengthTooLarge(n) => "Puffin footer length "@ + crate::text::dec_nat(
                n as nat,
            ) + " exceeds available data"@,
            FaultView::NotUtf8(m) => "Puffin footer UTF-8: "@ + m,
            FaultView::NotJson(m) => "Puffin footer JSON: "@ + m,
        },
    )
}

/// The error of a file without a deletion vector.
pub open spec fn no_dv_error() -> ErrorView {
    ErrorView::Corruption("Puffin file has no deletion-vector-v1 blob"@)
}

/// The error of a blob whose range leaves the file.
pub open spec fn blob_range_error(offset: int, length: int, size: int) -> ErrorView {
    ErrorView::Corruption(
        "Puffin blob at offset "@ + crate::text::dec_int(offset) + " length "@
            + crate::text::dec_int(length) + " exceeds file size "@ + crate::text::dec_int(size),
    )
}

/// The rows that the bytes of a blob stand for.
pub open spec fn blob_decoded(blob: Seq<u8>) -> std::result::Result<Set<u32>, ErrorView> {
    match bitmap_decoded(blob) {
        BitmapReading::Rows(rows) => Ok(rows),
        BitmapReading::Failure(m) => Err(
            ErrorView::Corruption("DV bitmap deserialize: "@ + m),
        ),
    }
}

/// The deletion vector that a Puffin file holds, or what is wrong with it.
pub open spec fn puffin_decoded(data: Seq<u8>) -> std::result::Result<Set<u32>, ErrorView> {
    match footer_reading(data) {
        FooterReading::Fault(f) => Err(decode_fault(f)),
        FooterReading::Blobs(blobs) => match first_dv(blobs) {
            None => Err(no_dv_error()),
            Some(b) => {
                let from = as_unsigned(b.offset);
                let len = as_unsigned(b.length);
                if from + len > data.len() {
                    Err(blob_range_error(from, len, data.len() as int))
                } else {
                    blob_decoded(data.subrange(from, from + len))
                }
            },
        },
    }
}

/// The data file that a Puffin file's deletion vector belongs to.
pub open spec fn puffin_data_file(data: Seq<u8>) -> std::result::Result<Seq<char>, ErrorView> {
    match footer_reading(data) {
        FooterReading::Fault(f) => Err(footer_fault(f)),
        FooterReading::Blobs(blobs) => match first_dv(blobs) {
            None => Err(no_dv_error()),
            Some(b) => Ok(b.data_file),
        },
    }
}

/// The footer of a file whose one blob is a deletion vector of `length` bytes
/// behind the opening magic.
pub open spec fn footer_tree(
    path: Seq<char>,
    snapshot_id: i64,
    sequence_number: i64,
    length: i64,
) -> JsonTree {
    JsonTree::Obj(
        seq![
            (
                "blobs"@,
                JsonTree::Arr(
                    seq![
                        JsonTree::Obj(
                            seq![
                                ("type"@, JsonTree::Str(dv_kind())),
                                (
                                    "fields"@,
                                    JsonTree::Obj(
                                        seq![("referenced-data-file"@, JsonTree::Str(path))],
                                    ),
                                ),
                                ("snapshot-id"@, JsonTree::Int(snapshot_id as i128)),
                                ("sequence-number"@, JsonTree::Int(sequence_number as i128)),
                                ("offset"@, JsonTree::Int(4)),
                                ("length"@, JsonTree::Int(length as i128)),
                            ],
                        ),
                    ],
                ),
            ),
            ("properties"@, JsonTree::Obj(Seq::empty())),
        ],
    )
}

/// The footer bytes of such a file.
pub open spec fn footer_utf8(
    path: Seq<char>,
    snapshot_id: i64,
    sequence_number: i64,
    length: i64,
) -> Seq<u8> {
    encode_utf8(
        crate::json::json_text(footer_tree(path, snapshot_id, sequence_number, length)),
    )
}

/// Why a blob of `size` bytes cannot be put into a Puffin file: it does not fit
/// 32 bits of length, or its footer does not fit 31.
pub open spec fn encode_fault(
    size: nat,
    path: Seq<char>,
    snapshot_id: i64,
    sequence_number: i64,
) -> Option<ErrorView> {
    let footer = footer_utf8(path, snapshot_id, sequence_number, size as i64).len();
    if size > u32::MAX {
        Some(
            ErrorView::Iceberg(
                "DV bitmap too large for u32: "@ + crate::text::dec_nat(size) + " bytes"@,
            ),
        )
    } else if footer > i32::MAX {
        Some(
            ErrorView::Iceberg(
                "Puffin footer too large for i32: "@ + crate::text::dec_nat(footer) + " bytes"@,
            ),
        )
    } else {
        None
    }
}

/// Whether `e` says that a deletion vector of these rows cannot be put into a
/// Puffin file, and why.
pub open spec fn not_encodable(
    rows: Set<u32>,
    path: Seq<char>,
    snapshot_id: i64,
    sequence_number: i64,
    e: ErrorView,
) -> bool {
    exists|dv: DeletionVector|
        dv@ == rows && #[trigger] encode_fault(
            dv.blob_size(),
            path,
            snapshot_id,
            sequence_number,
        ) == Some(e)
}

/// The Puffin file around one blob and a footer.
pub open spec fn puffin_file(blob: Seq<u8>, footer: Seq<u8>) -> Seq<u8> {
    puffin_magic() + blob + footer + crate::wire::le_bytes(footer.len() as int) + puffin_magic()
}

/// Reading four little-endian bytes gives back the number they were made of.
proof fn lemma_le_roundtrip(n: int)
    requires
        0 <= n <= i32::MAX,
    ensures
        le_i32(crate::wire::le_bytes(n)) == n,
{
    let b = crate::wire::le_bytes(n);
    assert(n / 65536 == n / 256 / 256);
    assert(n / 16777216 == n / 256 / 256 / 256);
    assert(n / 16777216 < 256);
}

/// The footer that is written is a footer, with the one blob that it names.
proof fn lemma_footer_tree(path: Seq<char>, snapshot_id: i64, sequence_number: i64, length: i64)
    ensures
        ({
            let t = footer_tree(path, snapshot_id, sequence_number, length);
            &&& is_footer(t)
            &&& footer_blobs(t) == seq![
                BlobView {
                    kind: dv_kind(),
                    data_file: path,
                    snapshot_id,
                    sequence_number,
                    offset: 4,
                    length,
                },
            ]
            &&& t.plain_within(crate::json::max_depth())
            &&& crate::json::names_distinct(t->Obj_0)
            &&& crate::json::names_distinct(t->Obj_0[0].1->Arr_0[0]->Obj_0)
        }),
{
    reveal_strlit("blobs");
    reveal_strlit("type");
    reveal_strlit("fields");
    reveal_strlit("referenced-data-file");
    reveal_strlit("snapshot-id");
    reveal_strlit("sequence-number");
    reveal_strlit("offset");
    reveal_strlit("length");
    reveal_strlit("properties");
    reveal_strlit("compression-codec");
    reveal_with_fuel(JsonTree::plain_within, 5);
    let t = footer_tree(path, snapshot_id, sequence_number, length);
    let top = t->Obj_0;
    let items = top[0].1->Arr_0;
    let members = items[0]->Obj_0;
    let inner = members[1].1->Obj_0;
    assert(crate::json::names_distinct(top)) by {
        assert(top[0].0.len() == 5 && top[1].0.len() == 10);
    }
    crate::json::lemma_member_at(top, 0);
    crate::json::lemma_member_at(top, 1);
    assert(members[0].0.len() == 4);
    assert(members[1].0.len() == 6 && members[1].0[0] == 'f');
    assert(members[2].0.len() == 11);
    assert(members[3].0.len() == 15);
    assert(members[4].0.len() == 6 && members[4].0[0] == 'o');
    assert(members[5].0.len() == 6 && members[5].0[0] == 'l');
    assert(crate::json::names_distinct(members));
    assert("compression-codec"@.len() == 17);
    crate::json::lemma_member_at(members, 0);
    crate::json::lemma_member_at(members, 1);
    crate::json::lemma_member_at(members, 2);
    crate::json::lemma_member_at(members, 3);
    crate::json::lemma_member_at(members, 4);
    crate::json::lemma_member_at(members, 5);
    crate::json::lemma_member_absent(members, "compression-codec"@);
    crate::json::lemma_member_at(inner, 0);
    assert(blob_of(items[0]) is Some);
    assert(footer_blobs(t) =~= seq![blob_of(items[0])->0]);
    assert(items[0].plain_within(14));
}

/// Reading a written Puffin file gives back the rows and the data file, as
/// long as its parts have lengths that its footer can express.
proof fn lemma_puffin_roundtrip(
    blob: Seq<u8>,
    rows: Set<u32>,
    path: Seq<char>,
    snapshot_id: i64,
    sequence_number: i64,
)
    requires
        blob.len() <= i64::MAX,
        bitmap_decoded(blob) == BitmapReading::Rows(rows),
        footer_utf8(path, snapshot_id, sequence_number, blob.len() as i64).len() <= i32::MAX,
        crate::json::json_parsed(
            crate::json::json_text(
                footer_tree(path, snapshot_id, sequence_number, blob.len() as i64),
            ),
        ) == JsonReading::Document(
            footer_tree(path, snapshot_id, sequence_number, blob.len() as i64),
        ),
    ensures
        ({
            let file = puffin_file(
                blob,
                footer_utf8(path, snapshot_id, sequence_number, blob.len() as i64),
            );
            &&& puffin_decoded(file) == Ok::<Set<u32>, ErrorView>(rows)
            &&& puffin_data_file(file) == Ok::<Seq<char>, ErrorView>(path)
        }),
{
    let length = blob.len() as i64;
    let footer = footer_utf8(path, snapshot_id, sequence_number, length);
    let tree = footer_tree(path, snapshot_id, sequence_number, length);
    let file = puffin_file(blob, footer);
    let n = file.len();
    assert(file.take(4) =~= puffin_magic());
    assert(file.skip(n - 4) =~= puffin_magic());
    assert(file.subrange(n - 8, n - 4) =~= crate::wire::le_bytes(footer.len() as int));
    lemma_le_roundtrip(footer.len() as int);
    encode_utf8_valid_utf8(crate::json::json_text(tree));
    encode_utf8_decode_utf8(crate::json::json_text(tree));
    assert(footer_length(file) == footer.len());
    assert(footer_bytes(file) =~= footer);
    lemma_footer_tree(path, snapshot_id, sequence_number, length);
    assert(footer_reading(file) == FooterReading::Blobs(footer_blobs(tree)));
    assert(first_dv(footer_blobs(tree)) == Some(footer_blobs(tree)[0]));
    assert(file.subrange(4, 4 + blob.len() as int) =~= blob);
}

/// Words a fault for the reader of a deletion vector.
fn decode_error(f: FooterFault) -> (r: MeruError)
    ensures
        r@ == decode_fault(f@),
{
    MeruError::Corruption(
        match f {
            FooterFault::TooShort => "Puffin file too short".to_owned(),
            FooterFault::NoOpeningMagic => "Puffin file missing opening magic".to_owned(),
            FooterFault::NoClosingMagic => "Puffin file missing closing magic".to_owned(),
            FooterFault::NegativeLength(n) => {
                joined("Puffin footer length is negative: ", dec_i64(n).as_str())
            },
            FooterFault::LengthTooLarge(n) => {
                let mut m = joined("Puffin footer length ", dec_u64(n).as_str());
                m.append(" exceeds file size");
                m
            },
            FooterFault::NotUtf8(m) => joined("Puffin footer not UTF-8: ", m.as_str()),
            FooterFault::NotJson(m) => joined("Puffin footer JSON parse: ", m.as_str()),
        },
    )
}

/// Words a fault for the reader of only the footer.
fn footer_error(f: FooterFault) -> (r: MeruError)
    ensures
        r@ == footer_fault(f@),
{
    MeruError::Corruption(
        match f {
            FooterFault::TooShort => "Puffin file too short".to_owned(),
            FooterFault::NoOpeningMagic => "Puffin magic mismatch".to_owned(),
            FooterFault::NoClosingMagic => "Puffin magic mismatch".to_owned(),
            FooterFault::NegativeLength(n) => {
                joined("Puffin footer length is negative: ", dec_i64(n).as_str())
            },
            FooterFault::LengthTooLarge(n) => {
                let mut m = joined("Puffin footer length ", dec_u64(n).as_str());
                m.append(" exceeds available data");
                m
            },
            FooterFault::NotUtf8(m) => joined("Puffin footer UTF-8: ", m.as_str()),
            FooterFault::NotJson(m) => joined("Puffin footer JSON: ", m.as_str()),
        },
    )
}

/// The index of the first blob that holds a deletion vector.
fn find_dv(blobs: &Vec<PuffinBlobMeta>) -> (r: Option<usize>)
    ensures
        match r {
            Some(i) => i < blobs@.len() && first_dv(blob_views(blobs@)) == Some(
                blobs@[i as int]@,
            ),
            None => first_dv(blob_views(blobs@)) is None,
        },
{
    let ghost all = blob_views(blobs@);
    let mut i: usize = 0;
    assert(all.skip(0) =~= all);
    while i < blobs.len()
        invariant
            i <= blobs@.len(),
            all == blob_views(blobs@),
            first_dv(all) == first_dv(all.skip(i as int)),
        decreases blobs@.len() - i,
    {
        assert(all.skip(i as int)[0] == blobs@[i as int]@);
        if same_text(blobs[i].kind.as_str(), "deletion-vector-v1") {
            return Some(i);
        }
        assert(all.skip(i as int).drop_first() =~= all.skip(i + 1));
        i = i + 1;
    }
    None
}

/// `n` as 64 unsigned bits.
fn to_unsigned(n: i64) -> (r: u64)
    ensures
        r == as_unsigned(n),
{
    if n < 0 {
        u64::MAX - ((-(n + 1)) as u64)
    } else {
        n as u64
    }
}

/// A complete Puffin file, together with the byte range of the bitmap blob in
/// it. The manifest records that range, so that readers can seek to the blob.
#[derive(Debug)]
pub struct PuffinEncoded {
    /// The file.
    pub bytes: Vec<u8>,
    /// Where the blob starts in `bytes`.
    pub blob_offset: i64,
    /// How long the blob is.
    pub blob_length: i64,
}

impl PuffinEncoded {
    /// Whether this is a Puffin file of these rows for that data file: the
    /// frame around a blob that reads as the rows, the footer that names the
    /// data file and the blob's range, and that range beside them.
    pub open spec fn is_puffin(
        &self,
        rows: Set<u32>,
        path: Seq<char>,
        snapshot_id: i64,
        sequence_number: i64,
    ) -> bool {
        exists|blob: Seq<u8>|
            {
                &&& bitmap_decoded(blob) == BitmapReading::Rows(rows)
                &&& self.blob_offset == 4
                &&& self.blob_length == blob.len()
                &&& footer_utf8(path, snapshot_id, sequence_number, blob.len() as i64).len()
                    <= i32::MAX
                &&& self.bytes@ == #[trigger] puffin_file(
                    blob,
                    footer_utf8(path, snapshot_id, sequence_number, blob.len() as i64),
                )
            }
    }

    /// The bytes of the blob.
    pub open spec fn blob(&self) -> Seq<u8> {
        self.bytes@.subrange(4, 4 + self.blob_length as int)
    }
}

/// The deleted row positions of one Parquet file.
#[derive(Debug)]
pub struct DeletionVector {
    bitmap: RoaringBitmap,
}

impl View for DeletionVector {
    type V = Set<u32>;

    closed spec fn view(&self) -> Set<u32> {
        bitmap_rows(self.bitmap)
    }
}

impl Default for DeletionVector {
    fn default() -> (r: Self)
        ensures
            r@ == Set::<u32>::empty(),
    {
        Self::new()
    }
}

impl Clone for DeletionVector {
    fn clone(&self) -> (r: Self)
        ensures
            r@ == self@,
            r.blob_size() == self.blob_size(),
    {
        DeletionVector { bitmap: bitmap_clone(&self.bitmap) }
    }
}

impl DeletionVector {
    /// How many bytes the rows take when they are written.
    pub closed spec fn blob_size(&self) -> nat {
        bitmap_size(self.bitmap)
    }

    /// No deleted rows.
    pub fn new() -> (r: Self)
        ensures
            r@ == Set::<u32>::empty(),
    {
        DeletionVector { bitmap: RoaringBitmap::new() }
    }

    /// Wraps a bitmap.
    pub fn from_bitmap(bitmap: RoaringBitmap) -> (r: Self)
        ensures
            r@ == bitmap_rows(bitmap),
            r.blob_size() == bitmap_size(bitmap),
    {
        DeletionVector { bitmap }
    }

    /// Marks a row position as deleted.
    pub fn mark_deleted(&mut self, row_position: u32)
        ensures
            final(self)@ == old(self)@.insert(row_position),
    {
        let _ = self.bitmap.insert(row_position);
    }

    /// Whether a row position is deleted.
    pub fn is_deleted(&self, row_position: u32) -> (r: bool)
        ensures
            r == self@.contains(row_position),
    {
        self.bitmap.contains(row_position)
    }

    /// How many rows are deleted.
    pub fn cardinality(&self) -> (r: u64)
        ensures
            r == self@.len(),
    {
        self.bitmap.len()
    }

    /// Whether no row is deleted.
    pub fn is_empty(&self) -> (r: bool)
        ensures
            r == (self@ == Set::<u32>::empty()),
    {
        self.bitmap.is_empty()
    }

    /// Deletes what `other` deletes as well.
    pub fn union_with(&mut self, other: &DeletionVector)
        ensures
            final(self)@ == old(self)@.union(other@),
    {
        bitmap_union(&mut self.bitmap, &other.bitmap);
    }

    /// The bitmap, as the Parquet reader wants it.
    pub fn bitmap(&self) -> (r: &RoaringBitmap)
        ensures
            bitmap_rows(*r) == self@,
            bitmap_size(*r) == self.blob_size(),
    {
        &self.bitmap
    }

    /// Encodes the rows as a complete Puffin file, with the byte range of the
    /// blob in it. `parquet_path` is the data file that the rows belong to.
    ///
    /// The file reads back as the same rows for the same data file. Only a
    /// blob that does not fit 32 bits of length is refused, and a footer that
    /// does not fit 31.
    pub fn encode_puffin(
        &self,
        parquet_path: &str,
        snapshot_id: i64,
        sequence_number: i64,
    ) -> (r: Result<PuffinEncoded>)
        ensures
            match r {
                Ok(p) => {
                    &&& encode_fault(
                        self.blob_size(),
                        parquet_path@,
                        snapshot_id,
                        sequence_number,
                    ) is None
                    &&& p.blob_length == self.blob_size()
                    &&& p.is_puffin(self@, parquet_path@, snapshot_id, sequence_number)
                    &&& blob_decoded(p.blob()) == Ok::<Set<u32>, ErrorView>(self@)
                    &&& puffin_decoded(p.bytes@) == Ok::<Set<u32>, ErrorView>(self@)
                    &&& puffin_data_file(p.bytes@) == Ok::<Seq<char>, ErrorView>(parquet_path@)
                },
                Err(e) => encode_fault(
                    self.blob_size(),
                    parquet_path@,
                    snapshot_id,
                    sequence_number,
                ) == Some(e@),
            },
    {
        let blob_size: u64 = self.bitmap.serialized_size() as u64;
        if blob_size > 0xFFFF_FFFF {
            let mut m = joined("DV bitmap too large for u32: ", dec_u64(blob_size).as_str());
            m.append(" bytes");
            return Err(MeruError::Iceberg(m));
        }
        let blob = match bitmap_encode(&self.bitmap) {
            Ok(b) => b,
            Err(m) => return Err(MeruError::Iceberg(joined("DV bitmap serialize: ", m.as_str()))),
        };
        let blob_offset: i64 = 4;
        let blob_length: i64 = blob.len() as i64;
        let footer_json = match footer_json(
            parquet_path,
            snapshot_id,
            sequence_number,
            blob_length,
        ) {
            Ok(s) => s,
            Err(m) => return Err(MeruError::Iceberg(joined("Puffin footer JSON: ", m.as_str()))),
        };
        let footer: &[u8] = footer_json.as_str().as_bytes();
        let size: usize = footer.len();
        assert(footer@ == footer_utf8(
            parquet_path@,
            snapshot_id,
            sequence_number,
            blob_length,
        ));
        if size > 0x7FFF_FFFF {
            let mut m = joined("Puffin footer too large for i32: ", dec_u64(size as u64).as_str());
            m.append(" bytes");
            return Err(MeruError::Iceberg(m));
        }
        let mut bytes: Vec<u8> = Vec::new();
        push_magic(&mut bytes);
        push_all(&mut bytes, blob.as_slice());
        push_all(&mut bytes, footer);
        bytes.push((size % 256) as u8);
        bytes.push((size / 256 % 256) as u8);
        bytes.push((size / 65536 % 256) as u8);
        bytes.push((size / 16777216 % 256) as u8);
        push_magic(&mut bytes);
        proof {
            let file = puffin_file(
                blob@,
                footer_utf8(parquet_path@, snapshot_id, sequence_number, blob@.len() as i64),
            );
            assert(bytes@ =~= file);
            lemma_puffin_roundtrip(
                blob@,
                self@,
                parquet_path@,
                snapshot_id,
                sequence_number,
            );
            assert(bytes@.subrange(4, 4 + blob@.len() as int) =~= blob@);
        }
        Ok(PuffinEncoded { bytes, blob_offset, blob_length })
    }

    /// The Puffin file alone. Code that persists the file uses
    /// [`Self::encode_puffin`], so that the blob's range is persisted too.
    pub fn to_puffin_bytes(
        &self,
        parquet_path: &str,
        snapshot_id: i64,
        sequence_number: i64,
    ) -> (r: Result<Vec<u8>>)
        ensures
            match r {
                Ok(bytes) => {
                    &&& encode_fault(
                        self.blob_size(),
                        parquet_path@,
                        snapshot_id,
                        sequence_number,
                    ) is None
                    &&& exists|p: PuffinEncoded|
                        p.bytes == bytes && #[trigger] p.is_puffin(
                            self@,
                            parquet_path@,
                            snapshot_id,
                            sequence_number,
                        )
                    &&& puffin_decoded(bytes@) == Ok::<Set<u32>, ErrorView>(self@)
                    &&& puffin_data_file(bytes@) == Ok::<Seq<char>, ErrorView>(parquet_path@)
                },
                Err(e) => encode_fault(
                    self.blob_size(),
                    parquet_path@,
                    snapshot_id,
                    sequence_number,
                ) == Some(e@),
            },
    {
        match self.encode_puffin(parquet_path, snapshot_id, sequence_number) {
            Ok(p) => {
                assert(p.is_puffin(self@, parquet_path@, snapshot_id, sequence_number));
                Ok(p.bytes)
            },
            Err(e) => Err(e),
        }
    }

    /// Reads the deletion vector of a complete Puffin file.
    pub fn from_puffin_bytes(data: &[u8]) -> (r: Result<Self>)
        ensures
            match r {
                Ok(dv) => puffin_decoded(data@) == Ok::<Set<u32>, ErrorView>(dv@),
                Err(e) => puffin_decoded(data@) == Err::<Set<u32>, ErrorView>(e@),
            },
    {
        let blobs = match read_footer(data) {
            Ok(blobs) => blobs,
            Err(f) => return Err(decode_error(f)),
        };
        let i: usize = match find_dv(&blobs) {
            Some(i) => i,
            None => {
                return Err(
                    MeruError::Corruption(
                        "Puffin file has no deletion-vector-v1 blob".to_owned(),
                    ),
                );
            },
        };
        let offset: u64 = to_unsigned(blobs[i].offset);
        let length: u64 = to_unsigned(blobs[i].length);
        let size: u64 = data.len() as u64;
        if offset > size || length > size - offset {
            let mut m = joined("Puffin blob at offset ", dec_u64(offset).as_str());
            m.append(" length ");
            m.append(dec_u64(length).as_str());
            m.append(" exceeds file size ");
            m.append(dec_u64(size).as_str());
            return Err(MeruError::Corruption(m));
        }
        let from: usize = offset as usize;
        let to: usize = (offset + length) as usize;
        Self::from_puffin_blob(vstd::slice::slice_subrange(data, from, to))
    }

    /// Reads the deletion vector from the bytes of its blob, cut out of a
    /// Puffin file by the recorded range.
    pub fn from_puffin_blob(blob_bytes: &[u8]) -> (r: Result<Self>)
        ensures
            match r {
                Ok(dv) => blob_decoded(blob_bytes@) == Ok::<Set<u32>, ErrorView>(dv@),
                Err(e) => blob_decoded(blob_bytes@) == Err::<Set<u32>, ErrorView>(e@),
            },
    {
        match bitmap_decode(blob_bytes) {
            Ok(bitmap) => Ok(DeletionVector { bitmap }),
            Err(m) => Err(MeruError::Corruption(joined("DV bitmap deserialize: ", m.as_str()))),
        }
    }

    /// The data file that a Puffin file's deletion vector belongs to.
    pub fn referenced_data_file(puffin_data: &[u8]) -> (r: Result<String>)
        ensures
            match r {
                Ok(path) => puffin_data_file(puffin_data@) == Ok::<Seq<char>, ErrorView>(path@),
                Err(e) => puffin_data_file(puffin_data@) == Err::<Seq<char>, ErrorView>(e@),
            },
    {
        let blobs = match read_footer(puffin_data) {
            Ok(blobs) => blobs,
            Err(f) => return Err(footer_error(f)),
        };
        match find_dv(&blobs) {
            Some(i) => Ok(blobs[i].data_file.clone()),
            None => Err(
                MeruError::Corruption("Puffin file has no deletion-vector-v1 blob".to_owned()),
            ),
        }
    }
}

/// Appends the Puffin magic.
fn push_magic(out: &mut Vec<u8>)
    ensures
        final(out)@ == old(out)@ + puffin_magic(),
{
    out.push(0x50);
    out.push(0x46);
    out.push(0x41);
    out.push(0x31);
    assert(out@ =~= old(out)@ + puffin_magic());
}

/// Prints the footer of a file whose one blob is a deletion vector.
fn footer_json(path: &str, snapshot_id: i64, sequence_number: i64, length: i64) -> (r:
    std::result::Result<String, String>)
    ensures
        ({
            let tree = footer_tree(path@, snapshot_id, sequence_number, length);
            &&& r matches Ok(s)
            &&& s@ == crate::json::json_text(tree)
            &&& crate::json::json_parsed(s@) == JsonReading::Document(tree)
        }),
{
    proof {
        lemma_footer_tree(path@, snapshot_id, sequence_number, length);
    }
    let ghost tree = footer_tree(path@, snapshot_id, sequence_number, length);
    let ghost top_members = tree->Obj_0;
    let ghost items = top_members[0].1->Arr_0;
    let ghost blob_members = items[0]->Obj_0;
    let inner = vec![("referenced-data-file".to_owned(), json_string(path.to_owned()))];
    let fields = json_object(inner);
    assert(crate::json::members_of(inner@) =~= blob_members[1].1->Obj_0);
    let entries = vec![
        ("type".to_owned(), json_string("deletion-vector-v1".to_owned())),
        ("fields".to_owned(), fields),
        ("snapshot-id".to_owned(), json_i64(snapshot_id)),
        ("sequence-number".to_owned(), json_i64(sequence_number)),
        ("offset".to_owned(), json_i64(4)),
        ("length".to_owned(), json_i64(length)),
    ];
    assert(crate::json::members_of(entries@) =~= blob_members);
    let blobs = vec![json_object(entries)];
    assert(Seq::new(blobs@.len(), |i: int| crate::json::json_tree(blobs@[i])) =~= items);
    let none: Vec<(String, Value)> = Vec::new();
    let top = vec![
        ("blobs".to_owned(), json_array(blobs)),
        ("properties".to_owned(), json_object(none)),
    ];
    assert(crate::json::members_of(none@) =~= Seq::empty());
    assert(crate::json::members_of(top@) =~= top_members);
    let footer = json_object(top);
    print_json(&footer)
}

/// A Puffin file begins and ends with `PFA1`; the blob lies behind the opening
/// magic, the footer behind the blob, and the length of the footer, in four
/// little-endian bytes, before the closing magic.
pub proof fn law_puffin_frame(blob: Seq<u8>, footer: Seq<u8>)
    requires
        footer.len() <= i32::MAX,
    ensures
        ({
            let file = puffin_file(blob, footer);
            let n = file.len() as int;
            &&& n == blob.len() + footer.len() + 12
            &&& file[0] == 'P' as u8 && file[1] == 'F' as u8 && file[2] == 'A' as u8 && file[3]
                == '1' as u8
            &&& file.subrange(4, 4 + blob.len() as int) == blob
            &&& file.subrange(4 + blob.len() as int, n - 8) == footer
            &&& file[n - 8] + 0x100 * file[n - 7] + 0x1_0000 * file[n - 6] + 0x100_0000 * file[n
                - 5] == footer.len()
            &&& file[n - 4] == 'P' as u8 && file[n - 3] == 'F' as u8 && file[n - 2] == 'A' as u8
                && file[n - 1] == '1' as u8
        }),
{
    let file = puffin_file(blob, footer);
    let n = file.len() as int;
    crate::wire::law_le_bytes_denote_their_number(footer.len() as int);
    let le = crate::wire::le_bytes(footer.len() as int);
    assert(file.subrange(4, 4 + blob.len() as int) =~= blob);
    assert(file.subrange(4 + blob.len() as int, n - 8) =~= footer);
    assert(file[n - 8] == le[0] && file[n - 7] == le[1] && file[n - 6] == le[2] && file[n - 5]
        == le[3]);
}

/// Four little-endian bytes are read as a signed number: the highest bit of
/// the last byte counts down.
pub proof fn law_le_i32_reads_signed_bytes(a: u8, b: u8, c: u8, d: u8)
    ensures
        d < 0x80 ==> le_i32(seq![a, b, c, d]) == a + 0x100 * b + 0x1_0000 * c + 0x100_0000 * d,
        d >= 0x80 ==> le_i32(seq![a, b, c, d]) == a + 0x100 * b + 0x1_0000 * c + 0x100_0000 * (d
            - 0x100),
{
}

/// A number that is not negative keeps its value as 64 unsigned bits; a
/// negative one stands that far below 2^64.
pub proof fn law_unsigned_bits(n: i64)
    ensures
        n >= 0 ==> as_unsigned(n) == n,
        n < 0 ==> as_unsigned(n) == u64::MAX + 1 + n,
{
}

/// The first blob of type `deletion-vector-v1` is the deletion vector, and
/// without one there is none.
pub proof fn law_first_dv_blob_counts(blobs: Seq<BlobView>, i: int)
    requires
        0 <= i <= blobs.len(),
        forall|k: int| 0 <= k < i ==> (#[trigger] blobs[k]).kind != "deletion-vector-v1"@,
        i < blobs.len() ==> blobs[i].kind == "deletion-vector-v1"@,
    ensures
        i < blobs.len() ==> first_dv(blobs) == Some(blobs[i]),
        i == blobs.len() ==> first_dv(blobs) is None,
    decreases blobs.len(),
{
    if i > 0 {
        let rest = blobs.drop_first();
        assert(blobs[0].kind != "deletion-vector-v1"@);
        assert forall|k: int| 0 <= k < i - 1 implies (#[trigger] rest[k]).kind
            != "deletion-vector-v1"@ by {
            assert(rest[k] == blobs[k + 1]);
        }
        if i < blobs.len() {
            assert(rest[i - 1] == blobs[i]);
        }
        law_first_dv_blob_counts(rest, i - 1);
    }
}

/// A Puffin file is read by its footer: the rows are those of the bytes in the
/// range of its first deletion vector, and the data file is the one that its
/// entry names. A range that leaves the file is corrupt.
pub proof fn law_rows_are_read_from_the_blobs_range(data: Seq<u8>, blobs: Seq<BlobView>, i: int)
    requires
        footer_reading(data) == FooterReading::Blobs(blobs),
        0 <= i < blobs.len(),
        forall|k: int| 0 <= k < i ==> (#[trigger] blobs[k]).kind != "deletion-vector-v1"@,
        blobs[i].kind == "deletion-vector-v1"@,
    ensures
        blobs[i].offset >= 0 && blobs[i].length >= 0 && blobs[i].offset + blobs[i].length
            <= data.len() ==> puffin_decoded(data) == blob_decoded(
            data.subrange(blobs[i].offset as int, blobs[i].offset + blobs[i].length),
        ),
        blobs[i].offset >= 0 && blobs[i].length >= 0 && blobs[i].offset + blobs[i].length
            > data.len() ==> (puffin_decoded(data) matches Err(e) && e is Corruption),
        puffin_data_file(data) == Ok::<Seq<char>, ErrorView>(blobs[i].data_file),
{
    law_first_dv_blob_counts(blobs, i);
}

/// Bytes without the frame of a Puffin file are corrupt: too few of them, a
/// magic missing at either end, or a footer length that is negative or larger
/// than what lies between.
pub proof fn law_damaged_frame_is_refused(data: Seq<u8>)
    requires
        data.len() < 12 || data.take(4) != seq!['P' as u8, 'F' as u8, 'A' as u8, '1' as u8]
            || data.skip(data.len() - 4) != seq!['P' as u8, 'F' as u8, 'A' as u8, '1' as u8]
            || data[data.len() - 5] >= 0x80 || data[data.len() - 8] + 0x100 * data[data.len() - 7]
            + 0x1_0000 * data[data.len() - 6] + 0x100_0000 * data[data.len() - 5] > data.len() - 12,
    ensures
        footer_reading(data) is Fault,
        puffin_decoded(data) matches Err(e) && e is Corruption,
        puffin_data_file(data) matches Err(e) && e is Corruption,
{
    assert(seq!['P' as u8, 'F' as u8, 'A' as u8, '1' as u8] =~= puffin_magic());
    if data.len() >= 12 {
        let n = data.len() as int;
        let part = data.subrange(n - 8, n - 4);
        assert(part[0] == data[n - 8]);
        assert(part[1] == data[n - 7]);
        assert(part[2] == data[n - 6]);
        assert(part[3] == data[n - 5]);
    }
}

/// The footer of a written file names one blob: the deletion vector of the
/// data file, of this snapshot and sequence number, right behind the opening
/// magic, with its length.
pub proof fn law_footer_names_the_blob(
    path: Seq<char>,
    snapshot_id: i64,
    sequence_number: i64,
    length: i64,
)
    ensures
        ({
            let t = footer_tree(path, snapshot_id, sequence_number, length);
            &&& is_footer(t)
            &&& footer_blobs(t).len() == 1
            &&& footer_blobs(t)[0].kind == "deletion-vector-v1"@
            &&& footer_blobs(t)[0].data_file == path
            &&& footer_blobs(t)[0].snapshot_id == snapshot_id
            &&& footer_blobs(t)[0].sequence_number == sequence_number
            &&& footer_blobs(t)[0].offset == 4
            &&& footer_blobs(t)[0].length == length
            &&& t.get("properties"@) == Some(JsonTree::Obj(Seq::empty()))
        }),
        ({
            let t = footer_tree(path, snapshot_id, sequence_number, length);
            &&& t.get("blobs"@) matches Some(JsonTree::Arr(items)) && items.len() == 1
            &&& t.get("blobs"@)->0->Arr_0[0].get("type"@) == Some(
                JsonTree::Str("deletion-vector-v1"@),
            )
            &&& t.get("blobs"@)->0->Arr_0[0].get("snapshot-id"@) == Some(
                JsonTree::Int(snapshot_id as i128),
            )
            &&& t.get("blobs"@)->0->Arr_0[0].get("sequence-number"@) == Some(
                JsonTree::Int(sequence_number as i128),
            )
            &&& t.get("blobs"@)->0->Arr_0[0].get("offset"@) == Some(JsonTree::Int(4))
            &&& t.get("blobs"@)->0->Arr_0[0].get("length"@) == Some(JsonTree::Int(length as i128))
            &&& t.get("blobs"@)->0->Arr_0[0].get("fields"@) matches Some(fields) && fields.get(
                "referenced-data-file"@,
            ) == Some(JsonTree::Str(path))
        }),
{
    let t = footer_tree(path, snapshot_id, sequence_number, length);
    lemma_footer_tree(path, snapshot_id, sequence_number, length);
    let top = t->Obj_0;
    let members = top[0].1->Arr_0[0]->Obj_0;
    let inner = members[1].1->Obj_0;
    crate::json::lemma_member_at(top, 0);
    crate::json::lemma_member_at(top, 1);
    crate::json::lemma_member_at(members, 0);
    crate::json::lemma_member_at(members, 1);
    crate::json::lemma_member_at(members, 2);
    crate::json::lemma_member_at(members, 3);
    crate::json::lemma_member_at(members, 4);
    crate::json::lemma_member_at(members, 5);
    crate::json::lemma_member_at(inner, 0);
}

/// A blob entry is what the members of its object say, and it is read whenever
/// they have their types, with or without a codec.
pub proof fn law_blob_entry_is_read_from_its_names(t: JsonTree)
    requires
        t is Obj,
    ensures
        blob_of(t) matches Some(b) ==> {
            &&& t.get("type"@) == Some(JsonTree::Str(b.kind))
            &&& t.get("fields"@) matches Some(f) && (f is Obj ==> f.get("referenced-data-file"@)
                == Some(JsonTree::Str(b.data_file)))
            &&& t.get("snapshot-id"@) == Some(JsonTree::Int(b.snapshot_id as i128))
            &&& t.get("sequence-number"@) == Some(JsonTree::Int(b.sequence_number as i128))
            &&& t.get("offset"@) == Some(JsonTree::Int(b.offset as i128))
            &&& t.get("length"@) == Some(JsonTree::Int(b.length as i128))
        },
        (t.get("type"@) matches Some(JsonTree::Str(_))) && (t.get("fields"@) matches Some(f)
            && f is Obj && (f.get("referenced-data-file"@) matches Some(JsonTree::Str(_)))) && (
        t.get("snapshot-id"@) matches Some(JsonTree::Int(n)) && i64::MIN <= n <= i64::MAX) && (
        t.get("sequence-number"@) matches Some(JsonTree::Int(n)) && i64::MIN <= n <= i64::MAX) && (
        t.get("offset"@) matches Some(JsonTree::Int(n)) && i64::MIN <= n <= i64::MAX) && (t.get(
            "length"@,
        ) matches Some(JsonTree::Int(n)) && i64::MIN <= n <= i64::MAX) && (t.get(
            "compression-codec"@,
        ) is None || t.get("compression-codec"@) == Some(JsonTree::Null) || (t.get(
            "compression-codec"@,
        ) matches Some(JsonTree::Str(_)))) ==> blob_of(t) is Some,
{
}

/// An object is a footer when its member `blobs` is an array of blob entries
/// and its member `properties`, if it has one, is an object; and its blobs are
/// those entries, one for one and in order.
pub proof fn law_footer_lists_its_blobs(t: JsonTree)
    requires
        t is Obj,
    ensures
        is_footer(t) <==> (t.get("blobs"@) matches Some(JsonTree::Arr(items)) && forall|i: int|
            0 <= i < items.len() ==> blob_of(#[trigger] items[i]) is Some) && (t.get(
            "properties"@,
        ) is None || t.get("properties"@)->0 is Obj),
        is_footer(t) ==> (t.get("blobs"@) matches Some(JsonTree::Arr(items)) && footer_blobs(
            t,
        ).len() == items.len() && forall|i: int|
            0 <= i < items.len() ==> blob_of(#[trigger] items[i]) == Some(footer_blobs(t)[i])),
{
}

/// The range beside a Puffin file holds its blob, whose bytes read as the
/// rows.
pub proof fn law_recorded_range_holds_the_rows(
    p: PuffinEncoded,
    rows: Set<u32>,
    path: Seq<char>,
    snapshot_id: i64,
    sequence_number: i64,
)
    requires
        p.is_puffin(rows, path, snapshot_id, sequence_number),
    ensures
        p.blob_offset >= 0,
        p.blob_length >= 0,
        p.blob_offset + p.blob_length <= p.bytes@.len(),
        p.blob() == p.bytes@.subrange(p.blob_offset as int, p.blob_offset + p.blob_length),
        blob_decoded(p.bytes@.subrange(p.blob_offset as int, p.blob_offset + p.blob_length))
            == Ok::<Set<u32>, ErrorView>(rows),
{
    let blob = choose|blob: Seq<u8>|
        {
            &&& bitmap_decoded(blob) == BitmapReading::Rows(rows)
            &&& p.blob_offset == 4
            &&& p.blob_length == blob.len()
            &&& footer_utf8(path, snapshot_id, sequence_number, blob.len() as i64).len()
                <= i32::MAX
            &&& p.bytes@ == #[trigger] puffin_file(
                blob,
                footer_utf8(path, snapshot_id, sequence_number, blob.len() as i64),
            )
        };
    assert(p.bytes@.subrange(4, 4 + blob.len() as int) =~= blob);
}

/// A deletion vector is refused exactly when its blob does not fit 32 bits of
/// length or its footer 31.
pub proof fn law_only_oversized_parts_are_refused(
    size: nat,
    path: Seq<char>,
    snapshot_id: i64,
    sequence_number: i64,
)
    ensures
        encode_fault(size, path, snapshot_id, sequence_number) is Some <==> size >= 0x1_0000_0000
            || footer_utf8(path, snapshot_id, sequence_number, size as i64).len() >= 0x8000_0000,
        encode_fault(size, path, snapshot_id, sequence_number) matches Some(e) ==> e is Iceberg,
{
}

/// The bytes of a blob stand for the rows that the bitmap reader finds in
/// them, and are corrupt where it finds none.
pub proof fn law_blob_bytes_stand_for_their_rows(blob: Seq<u8>, rows: Set<u32>)
    ensures
        bitmap_decoded(blob) == BitmapReading::Rows(rows) <==> blob_decoded(blob) == Ok::<
            Set<u32>,
            ErrorView,
        >(rows),
        bitmap_decoded(blob) is Failure ==> (blob_decoded(blob) matches Err(e) && e is Corruption),
{
}

/// Every fault of a Puffin file is a corruption, and one that concerns a
/// number or a reader's complaint says which.
pub proof fn law_faults_are_corruptions(f: FaultView)
    ensures
        decode_fault(f) is Corruption,
        footer_fault(f) is Corruption,
        f matches FaultView::NegativeLength(n) ==> crate::text::contains_text(
            decode_fault(f)->Corruption_0,
            crate::text::dec_int(n as int),
        ) && crate::text::contains_text(
            footer_fault(f)->Corruption_0,
            crate::text::dec_int(n as int),
        ),
        f matches FaultView::LengthTooLarge(n) ==> crate::text::contains_text(
            decode_fault(f)->Corruption_0,
            crate::text::dec_nat(n as nat),
        ) && crate::text::contains_text(
            footer_fault(f)->Corruption_0,
            crate::text::dec_nat(n as nat),
        ),
        f matches FaultView::NotUtf8(m) ==> crate::text::contains_text(
            decode_fault(f)->Corruption_0,
            m,
        ) && crate::text::contains_text(footer_fault(f)->Corruption_0, m),
        f matches FaultView::NotJson(m) ==> crate::text::contains_text(
            decode_fault(f)->Corruption_0,
            m,
        ) && crate::text::contains_text(footer_fault(f)->Corruption_0, m),
        no_dv_error() is Corruption,
{
    let none = Seq::<char>::empty();
    let a = decode_fault(f)->Corruption_0;
    let b = footer_fault(f)->Corruption_0;
    match f {
        FaultView::NegativeLength(n) => {
            let d = crate::text::dec_int(n as int);
            assert(a =~= "Puffin footer length is negative: "@ + d + none);
            assert(b =~= "Puffin footer length is negative: "@ + d + none);
            crate::text::lemma_contains_text("Puffin footer length is negative: "@, d, none);
        },
        FaultView::LengthTooLarge(n) => {
            let d = crate::text::dec_nat(n as nat);
            crate::text::lemma_contains_text(
                "Puffin footer length "@,
                d,
                " exceeds file size"@,
            );
            crate::text::lemma_contains_text(
                "Puffin footer length "@,
                d,
                " exceeds available data"@,
            );
        },
        FaultView::NotUtf8(m) => {
            assert(a =~= "Puffin footer not UTF-8: "@ + m + none);
            assert(b =~= "Puffin footer UTF-8: "@ + m + none);
            crate::text::lemma_contains_text("Puffin footer not UTF-8: "@, m, none);
            crate::text::lemma_contains_text("Puffin footer UTF-8: "@, m, none);
        },
        FaultView::NotJson(m) => {
            assert(a =~= "Puffin footer JSON parse: "@ + m + none);
            assert(b =~= "Puffin footer JSON: "@ + m + none);
            crate::text::lemma_contains_text("Puffin footer JSON parse: "@, m, none);
            crate::text::lemma_contains_text("Puffin footer JSON: "@, m, none);
        },
        _ => {},
    }
}

/// The error of a blob that leaves its file names its range and the size of
/// the file.
pub proof fn law_range_error_names_the_range(offset: int, length: int, size: int)
    ensures
        blob_range_error(offset, length, size) matches ErrorView::Corruption(m)
            && crate::text::contains_text(m, "offset "@ + crate::text::dec_int(offset))
            && crate::text::contains_text(m, "length "@ + crate::text::dec_int(length))
            && crate::text::contains_text(m, "size "@ + crate::text::dec_int(size)),
{
    reveal_strlit("Puffin blob at offset ");
    reveal_strlit("Puffin blob at ");
    reveal_strlit("offset ");
    reveal_strlit(" length ");
    reveal_strlit(" ");
    reveal_strlit("length ");
    reveal_strlit(" exceeds file size ");
    reveal_strlit(" exceeds file ");
    reveal_strlit("size ");
    let o = crate::text::dec_int(offset);
    let n = crate::text::dec_int(length);
    let s = crate::text::dec_int(size);
    let m = blob_range_error(offset, length, size)->Corruption_0;
    let none = Seq::<char>::empty();
    assert("Puffin blob at offset "@ =~= "Puffin blob at "@ + "offset "@);
    assert(" length "@ =~= " "@ + "length "@);
    assert(" exceeds file size "@ =~= " exceeds file "@ + "size "@);
    let tail = " length "@ + n + " exceeds file size "@ + s;
    assert(m =~= "Puffin blob at "@ + ("offset "@ + o) + tail);
    crate::text::lemma_contains_text("Puffin blob at "@, "offset "@ + o, tail);
    let head = "Puffin blob at offset "@ + o + " "@;
    assert(m =~= head + ("length "@ + n) + (" exceeds file size "@ + s));
    crate::text::lemma_contains_text(head, "length "@ + n, " exceeds file size "@ + s);
    let front = "Puffin blob at offset "@ + o + " length "@ + n + " exceeds file "@;
    assert(m =~= front + ("size "@ + s) + none);
    crate::text::lemma_contains_text(front, "size "@ + s, none);
}

/// A deletion vector that cannot be put into a Puffin file is an error of the
/// Iceberg layer.
pub proof fn law_not_encodable_is_an_iceberg_error(
    rows: Set<u32>,
    path: Seq<char>,
    snapshot_id: i64,
    sequence_number: i64,
    e: ErrorView,
)
    requires
        not_encodable(rows, path, snapshot_id, sequence_number, e),
    ensures
        e is Iceberg,
{
}

/// The view of a blob entry shows each field under its own name, that of a
/// fault its kind and its content, and entries are shown one for one.
pub proof fn law_blob_and_fault_views(b: PuffinBlobMeta, f: FooterFault, all: Seq<PuffinBlobMeta>)
    ensures
        b@.kind == b.kind@,
        b@.data_file == b.data_file@,
        b@.snapshot_id == b.snapshot_id,
        b@.sequence_number == b.sequence_number,
        b@.offset == b.offset,
        b@.length == b.length,
        f is TooShort <==> f@ is TooShort,
        f is NoOpeningMagic <==> f@ is NoOpeningMagic,
        f is NoClosingMagic <==> f@ is NoClosingMagic,
        f matches FooterFault::NegativeLength(n) ==> f@ == FaultView::NegativeLength(n),
        f matches FooterFault::LengthTooLarge(n) ==> f@ == FaultView::LengthTooLarge(n),
        f matches FooterFault::NotUtf8(m) ==> f@ == FaultView::NotUtf8(m@),
        f matches FooterFault::NotJson(m) ==> f@ == FaultView::NotJson(m@),
        blob_views(all).len() == all.len(),
        forall|i: int| 0 <= i < all.len() ==> #[trigger] blob_views(all)[i] == all[i]@,
{
}

/// Which fault is named: the first that applies, of too few bytes, a missing
/// opening magic, a missing closing magic, and a footer length that is
/// negative or too large.
pub proof fn law_first_fault_is_named(data: Seq<u8>)
    ensures
        data.len() < 12 <==> footer_reading(data) == FooterReading::Fault(FaultView::TooShort),
        footer_reading(data) == FooterReading::Fault(FaultView::NoOpeningMagic) <==> data.len()
            >= 12 && data.take(4) != seq!['P' as u8, 'F' as u8, 'A' as u8, '1' as u8],
        footer_reading(data) == FooterReading::Fault(FaultView::NoClosingMagic) <==> data.len()
            >= 12 && data.take(4) == seq!['P' as u8, 'F' as u8, 'A' as u8, '1' as u8] && data.skip(
            data.len() - 4,
        ) != seq!['P' as u8, 'F' as u8, 'A' as u8, '1' as u8],
        footer_reading(data) matches FooterReading::Fault(FaultView::NegativeLength(n)) ==> n < 0
            && n == le_i32(data.subrange(data.len() - 8, data.len() - 4)),
        footer_reading(data) matches FooterReading::Fault(FaultView::LengthTooLarge(n)) ==> n
            > data.len() - 12 && n == le_i32(data.subrange(data.len() - 8, data.len() - 4)),
{
    assert(seq!['P' as u8, 'F' as u8, 'A' as u8, '1' as u8] =~= puffin_magic());
}

/// A whole frame around a footer that is UTF-8 and JSON is read by that
/// footer.
pub proof fn law_whole_frame_is_read_by_its_footer(
    blob: Seq<u8>,
    footer: Seq<u8>,
    t: JsonTree,
)
    requires
        footer.len() <= i32::MAX,
        valid_utf8(footer),
        crate::json::json_parsed(decode_utf8(footer)) == JsonReading::Document(t),
    ensures
        is_footer(t) ==> footer_reading(puffin_file(blob, footer)) == FooterReading::Blobs(
            footer_blobs(t),
        ),
        !is_footer(t) ==> (footer_reading(
            puffin_file(blob, footer),
        ) matches FooterReading::Fault(f) && f is NotJson),
{
    let file = puffin_file(blob, footer);
    let n = file.len();
    assert(file.take(4) =~= puffin_magic());
    assert(file.skip(n - 4) =~= puffin_magic());
    assert(file.subrange(n - 8, n - 4) =~= crate::wire::le_bytes(footer.len() as int));
    lemma_le_roundtrip(footer.len() as int);
    assert(footer_length(file) == footer.len());
    assert(footer_bytes(file) =~= footer);
}

/// A footer can be an array of its blobs and, if it has any, its properties;
/// and a blob entry an array of its seven fields in their order.
pub proof fn law_footers_can_be_arrays(
    blobs: Seq<JsonTree>,
    properties: Seq<(Seq<char>, JsonTree)>,
    b: BlobView,
    codec: JsonTree,
)
    requires
        codec is Null || codec is Str,
    ensures
        (forall|i: int| 0 <= i < blobs.len() ==> blob_of(#[trigger] blobs[i]) is Some) ==> ({
            let short = JsonTree::Arr(seq![JsonTree::Arr(blobs)]);
            let long = JsonTree::Arr(seq![JsonTree::Arr(blobs), JsonTree::Obj(properties)]);
            &&& is_footer(short) && footer_blobs(short).len() == blobs.len()
            &&& is_footer(long) && footer_blobs(long).len() == blobs.len()
            &&& forall|i: int|
                0 <= i < blobs.len() ==> blob_of(#[trigger] blobs[i]) == Some(footer_blobs(short)[i])
                    && footer_blobs(long)[i] == footer_blobs(short)[i]
        }),
        blob_of(
            JsonTree::Arr(
                seq![
                    JsonTree::Str(b.kind),
                    JsonTree::Arr(seq![JsonTree::Str(b.data_file)]),
                    JsonTree::Int(b.snapshot_id as i128),
                    JsonTree::Int(b.sequence_number as i128),
                    JsonTree::Int(b.offset as i128),
                    JsonTree::Int(b.length as i128),
                    codec,
                ],
            ),
        ) == Some(b),
{
    let short = JsonTree::Arr(seq![JsonTree::Arr(blobs)]);
    let long = JsonTree::Arr(seq![JsonTree::Arr(blobs), JsonTree::Obj(properties)]);
    assert(short->Arr_0[0] == JsonTree::Arr(blobs));
    assert(long->Arr_0[0] == JsonTree::Arr(blobs));
    assert(long->Arr_0[1] == JsonTree::Obj(properties));
    let inner = JsonTree::Arr(seq![JsonTree::Str(b.data_file)]);
    assert(inner->Arr_0[0] == JsonTree::Str(b.data_file));
}

/// A footer that is an array says of its blobs what its first item does, and a
/// blob entry that is one is what its places say.
pub proof fn law_arrays_are_read_by_place(t: JsonTree, items: Seq<JsonTree>)
    requires
        t == JsonTree::Arr(items),
    ensures
        is_footer(t) ==> 1 <= items.len() <= 2 && (items[0] matches JsonTree::Arr(blobs)
            && footer_blobs(t).len() == blobs.len() && forall|i: int|
            0 <= i < blobs.len() ==> blob_of(#[trigger] blobs[i]) == Some(footer_blobs(t)[i])) && (
        items.len() == 2 ==> items[1] is Obj),
        blob_of(t) matches Some(b) ==> {
            &&& items.len() == 7
            &&& items[0] == JsonTree::Str(b.kind)
            &&& items[2] == JsonTree::Int(b.snapshot_id as i128)
            &&& items[3] == JsonTree::Int(b.sequence_number as i128)
            &&& items[4] == JsonTree::Int(b.offset as i128)
            &&& items[5] == JsonTree::Int(b.length as i128)
            &&& items[1] matches JsonTree::Arr(inner) ==> inner.len() == 1 && inner[0]
                == JsonTree::Str(b.data_file)
        },
{
}

} // verus!
