//! Framing of row values in the log.
//!
//! A row is written as postcard bytes behind a marker byte. Rows that are
//! older than the marker are JSON objects, which never start with it.

use vstd::prelude::*;

use crate::types::value::Row;
use crate::wire::push_all;

verus! {

/// The byte in front of postcard bytes.
pub const POSTCARD_MARKER: u8 = 0x01;

/// The stored form of a row: what is left to decode, and how.
#[derive(Debug)]
pub enum StoredRow {
    /// Nothing was stored.
    Empty,
    /// Postcard bytes.
    Postcard(Vec<u8>),
    /// JSON text.
    Json(Vec<u8>),
}

/// [`StoredRow`] with its bytes as a sequence.
pub enum StoredView {
    Empty,
    Postcard(Seq<u8>),
    Json(Seq<u8>),
}

impl View for StoredRow {
    type V = StoredView;

    open spec fn view(&self) -> StoredView {
        match self {
            StoredRow::Empty => StoredView::Empty,
            StoredRow::Postcard(b) => StoredView::Postcard(b@),
            StoredRow::Json(b) => StoredView::Json(b@),
        }
    }
}

/// Postcard bytes as they are stored.
pub open spec fn framed(raw: Seq<u8>) -> Seq<u8> {
    seq![POSTCARD_MARKER] + raw
}

/// What stored bytes hold.
pub open spec fn stored_form(bytes: Seq<u8>) -> StoredView {
    if bytes.len() == 0 {
        StoredView::Empty
    } else if bytes[0] == POSTCARD_MARKER {
        StoredView::Postcard(bytes.skip(1))
    } else {
        StoredView::Json(bytes)
    }
}

/// Puts the marker in front of the postcard bytes of a row.
pub fn frame_row(raw: &Vec<u8>) -> (r: Vec<u8>)
    ensures
        r@ == framed(raw@),
{
    let mut r: Vec<u8> = Vec::new();
    r.push(POSTCARD_MARKER);
    push_all(&mut r, raw);
    assert(r@ =~= framed(raw@));
    r
}

/// Tells from the first byte how stored bytes are decoded.
pub fn unframe_row(bytes: &[u8]) -> (r: StoredRow)
    ensures
        r@ == stored_form(bytes@),
{
    if bytes.len() == 0 {
        return StoredRow::Empty;
    }
    let is_postcard = bytes[0] == POSTCARD_MARKER;
    let from: usize = if is_postcard { 1 } else { 0 };
    let mut rest: Vec<u8> = Vec::new();
    let mut i: usize = from;
    while i < bytes.len()
        invariant
            from <= i <= bytes@.len(),
            rest@ == bytes@.subrange(from as int, i as int),
        decreases bytes@.len() - i,
    {
        rest.push(bytes[i]);
        assert(rest@ =~= bytes@.subrange(from as int, i + 1));
        i = i + 1;
    }
    if is_postcard {
        assert(rest@ =~= bytes@.skip(1));
        StoredRow::Postcard(rest)
    } else {
        assert(rest@ =~= bytes@);
        StoredRow::Json(rest)
    }
}

/// The row that bytes stand for: what was decoded, or the row without columns
/// where nothing could be.
pub fn row_or_default(decoded: Option<Row>) -> (r: Row)
    ensures
        match decoded {
            Some(row) => r == row,
            None => r@ == Seq::<Option<crate::types::value::FieldView>>::empty(),
        },
{
    match decoded {
        Some(row) => row,
        None => Row::default(),
    }
}

/// What was framed comes back as postcard bytes, whatever they are.
pub proof fn law_framed_row_is_postcard(raw: Seq<u8>)
    ensures
        stored_form(framed(raw)) == StoredView::Postcard(raw),
{
    assert(framed(raw).skip(1) =~= raw);
}

/// Bytes that start with the brace of a JSON object are never taken for
/// postcard bytes.
pub proof fn law_json_is_told_apart(bytes: Seq<u8>)
    requires
        bytes.len() > 0,
        bytes[0] == 0x7B,
    ensures
        stored_form(bytes) == StoredView::Json(bytes),
{
}

/// A framed row is the marker byte 1 and the row's bytes behind it.
pub proof fn law_frame_is_one_byte(raw: Seq<u8>)
    ensures
        framed(raw).len() == raw.len() + 1,
        framed(raw)[0] == 1,
        framed(raw).skip(1) == raw,
{
    assert(framed(raw).skip(1) =~= raw);
}

/// Stored bytes are told apart by their first byte alone: 1 stands before
/// postcard bytes, any other begins JSON text, and no bytes are no row.
pub proof fn law_first_byte_decides(bytes: Seq<u8>)
    ensures
        bytes.len() == 0 ==> stored_form(bytes) is Empty,
        bytes.len() > 0 && bytes[0] == 1 ==> stored_form(bytes) == StoredView::Postcard(
            bytes.skip(1),
        ),
        bytes.len() > 0 && bytes[0] != 1 ==> stored_form(bytes) == StoredView::Json(bytes),
{
}

/// The view of a stored row has its kind and its bytes.
pub proof fn law_stored_view_keeps_kind_and_bytes(r: StoredRow)
    ensures
        r is Empty <==> r@ is Empty,
        r matches StoredRow::Postcard(b) ==> r@ == StoredView::Postcard(b@),
        r matches StoredRow::Json(b) ==> r@ == StoredView::Json(b@),
{
}

} // verus!
