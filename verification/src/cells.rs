//! The cells of a result row, and what they are in JSON.

use vstd::prelude::*;

use crate::json::{
    integer, items_view, json_signed, json_unsigned, lemma_json_view, Json, JsonNumber, JsonView,
};
use crate::quoting::{hex_encode, hex_text};
use crate::text::joined;

verus! {

/// A cell as the driver reads it. A floating-point number is held as the bits of its double; one
/// of single precision is widened first. A value of any other type is held as the text that
/// describes it, and a cell that cannot be read is `Unreadable`.
#[derive(Debug, PartialEq, Eq)]
pub enum Cell {
    Null,
    Boolean(bool),
    TinyInt(i8),
    SmallInt(i16),
    Int(i32),
    BigInt(i64),
    UTinyInt(u8),
    USmallInt(u16),
    UInt(u32),
    UBigInt(u64),
    Double(u64),
    Text(String),
    Blob(Vec<u8>),
    Other(String),
    Unreadable,
}

/// The content of a [`Cell`].
pub ghost enum CellView {
    Null,
    Boolean(bool),
    Integer(int),
    Double(u64),
    Text(Seq<char>),
    Blob(Seq<u8>),
    Other(Seq<char>),
    Unreadable,
}

impl View for Cell {
    type V = CellView;

    open spec fn view(&self) -> CellView {
        match self {
            Cell::Null => CellView::Null,
            Cell::Boolean(b) => CellView::Boolean(*b),
            Cell::TinyInt(n) => CellView::Integer(*n as int),
            Cell::SmallInt(n) => CellView::Integer(*n as int),
            Cell::Int(n) => CellView::Integer(*n as int),
            Cell::BigInt(n) => CellView::Integer(*n as int),
            Cell::UTinyInt(n) => CellView::Integer(*n as int),
            Cell::USmallInt(n) => CellView::Integer(*n as int),
            Cell::UInt(n) => CellView::Integer(*n as int),
            Cell::UBigInt(n) => CellView::Integer(*n as int),
            Cell::Double(bits) => CellView::Double(*bits),
            Cell::Text(t) => CellView::Text(t@),
            Cell::Blob(bytes) => CellView::Blob(bytes@),
            Cell::Other(t) => CellView::Other(t@),
            Cell::Unreadable => CellView::Unreadable,
        }
    }
}

/// The cells of a row by their content.
pub open spec fn cells_view(cells: Seq<Cell>) -> Seq<CellView> {
    cells.map_values(|c: Cell| c@)
}

/// Whether the bits are those of a finite double: the eleven bits of the exponent, which stand
/// above the lower fifty-two, are not all set.
pub open spec fn is_finite_spec(bits: u64) -> bool {
    (bits as nat / 0x10_0000_0000_0000) % 0x800 != 0x7ff
}

/// What a cell is in JSON. Bytes are written in hexadecimal after `\x`; a double that is not
/// finite has no JSON number and is null, as is a cell that cannot be read.
pub open spec fn cell_json(cell: CellView) -> JsonView {
    match cell {
        CellView::Null => JsonView::Null,
        CellView::Boolean(b) => JsonView::Bool(b),
        CellView::Integer(n) => JsonView::Number(integer(n)),
        CellView::Double(bits) => if is_finite_spec(bits) {
            JsonView::Number(JsonNumber::Double(bits))
        } else {
            JsonView::Null
        },
        CellView::Text(t) => JsonView::Text(t),
        CellView::Blob(bytes) => JsonView::Text("\\x"@ + hex_text(bytes)),
        CellView::Other(t) => JsonView::Text(t),
        CellView::Unreadable => JsonView::Null,
    }
}

/// A row in JSON.
pub open spec fn row_json(cells: Seq<CellView>) -> JsonView {
    JsonView::Array(cells.map_values(|c: CellView| cell_json(c)))
}

/// What a cell is in JSON.
pub fn cell_to_json(cell: Cell) -> (r: Json)
    ensures
        r@ == cell_json(cell@),
{
    match cell {
        Cell::Null => Json::Null,
        Cell::Boolean(b) => Json::Bool(b),
        Cell::TinyInt(n) => json_signed(n as i64),
        Cell::SmallInt(n) => json_signed(n as i64),
        Cell::Int(n) => json_signed(n as i64),
        Cell::BigInt(n) => json_signed(n),
        Cell::UTinyInt(n) => json_unsigned(n as u64),
        Cell::USmallInt(n) => json_unsigned(n as u64),
        Cell::UInt(n) => json_unsigned(n as u64),
        Cell::UBigInt(n) => json_unsigned(n),
        Cell::Double(bits) => {
            let exponent: u64 = (bits / 0x10_0000_0000_0000) % 0x800;
            if exponent != 0x7ff {
                Json::Number(JsonNumber::Double(bits))
            } else {
                Json::Null
            }
        },
        Cell::Text(t) => Json::Text(t),
        Cell::Blob(bytes) => Json::Text(joined("\\x", &hex_encode(bytes.as_slice()))),
        Cell::Other(t) => Json::Text(t),
        Cell::Unreadable => Json::Null,
    }
}

/// A row in JSON.
pub fn row_to_json(cells: Vec<Cell>) -> (r: Json)
    ensures
        r@ == row_json(cells_view(cells@)),
{
    broadcast use lemma_json_view;

    let ghost content = cells_view(cells@);
    let mut items: Vec<Json> = Vec::new();
    for cell in it: cells.into_iter()
        invariant
            it.seq() == cells@,
            content == cells_view(cells@),
            items@.len() == it.index(),
            forall|k: int|
                0 <= k < it.index() ==> (#[trigger] items@[k])@ == cell_json(content[k]),
    {
        items.push(cell_to_json(cell));
    }
    assert(items_view(items@) =~= content.map_values(|c: CellView| cell_json(c)));
    Json::Array(items)
}

} // verus!
