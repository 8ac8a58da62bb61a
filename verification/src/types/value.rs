//! Row values.

use vstd::prelude::*;

use crate::types::level::copy_bytes;

verus! {

/// One column value. Floating-point values are held by their IEEE-754 bits.
#[derive(Debug, PartialEq, Eq)]
pub enum FieldValue {
    Boolean(bool),
    Int32(i32),
    Int64(i64),
    /// A 32-bit float, by its bits.
    Float(u32),
    /// A 64-bit float, by its bits.
    Double(u64),
    Bytes(Vec<u8>),
}

/// [`FieldValue`] with its bytes as a sequence.
pub enum FieldView {
    Boolean(bool),
    Int32(i32),
    Int64(i64),
    Float(u32),
    Double(u64),
    Bytes(Seq<u8>),
}

impl View for FieldValue {
    type V = FieldView;

    open spec fn view(&self) -> FieldView {
        match self {
            FieldValue::Boolean(b) => FieldView::Boolean(*b),
            FieldValue::Int32(n) => FieldView::Int32(*n),
            FieldValue::Int64(n) => FieldView::Int64(*n),
            FieldValue::Float(bits) => FieldView::Float(*bits),
            FieldValue::Double(bits) => FieldView::Double(*bits),
            FieldValue::Bytes(b) => FieldView::Bytes(b@),
        }
    }
}

impl Clone for FieldValue {
    fn clone(&self) -> (r: Self)
        ensures
            r@ == self@,
    {
        match self {
            FieldValue::Boolean(b) => FieldValue::Boolean(*b),
            FieldValue::Int32(n) => FieldValue::Int32(*n),
            FieldValue::Int64(n) => FieldValue::Int64(*n),
            FieldValue::Float(bits) => FieldValue::Float(*bits),
            FieldValue::Double(bits) => FieldValue::Double(*bits),
            FieldValue::Bytes(b) => FieldValue::Bytes(copy_bytes(b)),
        }
    }
}

/// An optional value; `None` is NULL.
pub open spec fn opt_field(o: Option<FieldValue>) -> Option<FieldView> {
    match o {
        Some(v) => Some(v@),
        None => None,
    }
}

/// One row: a value or NULL for each column.
#[derive(Debug, PartialEq, Eq)]
pub struct Row {
    pub fields: Vec<Option<FieldValue>>,
}

impl View for Row {
    type V = Seq<Option<FieldView>>;

    open spec fn view(&self) -> Seq<Option<FieldView>> {
        Seq::new(self.fields@.len(), |i: int| opt_field(self.fields@[i]))
    }
}

impl Row {
    /// The row of these values.
    pub fn new(fields: Vec<Option<FieldValue>>) -> (r: Self)
        ensures
            r.fields == fields,
    {
        Row { fields }
    }

    /// The value in column `i`; `None` when it is NULL or there is no such
    /// column.
    pub fn get(&self, i: usize) -> (r: Option<&FieldValue>)
        ensures
            match r {
                Some(v) => i < self.fields@.len() && self.fields@[i as int] == Some(*v),
                None => i >= self.fields@.len() || self.fields@[i as int] is None,
            },
    {
        if i < self.fields.len() {
            match &self.fields[i] {
                Some(v) => Some(v),
                None => None,
            }
        } else {
            None
        }
    }
}

impl Default for Row {
    /// The row without columns.
    fn default() -> (r: Self)
        ensures
            r@ == Seq::<Option<FieldView>>::empty(),
    {
        let r = Row { fields: Vec::new() };
        assert(r@ =~= Seq::empty());
        r
    }
}

impl Clone for Row {
    fn clone(&self) -> (r: Self)
        ensures
            r@ == self@,
    {
        let mut fields: Vec<Option<FieldValue>> = Vec::new();
        let mut i: usize = 0;
        while i < self.fields.len()
            invariant
                i <= self.fields@.len(),
                fields@.len() == i,
                forall|k: int|
                    0 <= k < i ==> opt_field(#[trigger] fields@[k]) == opt_field(self.fields@[k]),
            decreases self.fields@.len() - i,
        {
            let copy = match &self.fields[i] {
                Some(v) => Some(v.clone()),
                None => None,
            };
            fields.push(copy);
            i = i + 1;
        }
        let r = Row { fields };
        assert(r@ =~= self@);
        r
    }
}

/// The view of a value has its kind and its content.
pub proof fn law_value_view_keeps_kind_and_content(v: FieldValue)
    ensures
        v matches FieldValue::Boolean(b) ==> v@ == FieldView::Boolean(b),
        v matches FieldValue::Int32(n) ==> v@ == FieldView::Int32(n),
        v matches FieldValue::Int64(n) ==> v@ == FieldView::Int64(n),
        v matches FieldValue::Float(bits) ==> v@ == FieldView::Float(bits),
        v matches FieldValue::Double(bits) ==> v@ == FieldView::Double(bits),
        v matches FieldValue::Bytes(b) ==> v@ == FieldView::Bytes(b@),
{
}

/// The view of a row has a column for each column of the row, NULL exactly
/// where that is NULL, and otherwise its value.
pub proof fn law_row_view_shows_every_column(row: Row)
    ensures
        row@.len() == row.fields@.len(),
        forall|i: int|
            0 <= i < row.fields@.len() ==> ((#[trigger] row@[i]) is None
                <==> row.fields@[i] is None),
        forall|i: int|
            0 <= i < row.fields@.len() && row.fields@[i] is Some ==> (#[trigger] row@[i])->0
                == row.fields@[i]->0@,
{
}

} // verus!
