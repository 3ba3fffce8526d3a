//! The error a tool call answers with: a protocol error code, a message
//! and a small structured payload of named values.
use vstd::prelude::*;

verus! {

/// The JSON-RPC error class of a failed call.
#[derive(Clone, Copy, Debug, PartialEq, Eq, Structural)]
pub enum ErrorCode {
    /// The caller's arguments were unusable (here: the URL did not parse).
    InvalidParams,
    /// The call failed while being carried out.
    InternalError,
}

/// A value in an error's payload.
#[derive(Debug)]
pub enum DataValue {
    Text(String),
    Number(u64),
}

/// One named value of an error's payload.
#[derive(Debug)]
pub struct DataEntry {
    pub key: String,
    pub value: DataValue,
}

/// A failed tool call.
#[derive(Debug)]
pub struct ToolError {
    pub code: ErrorCode,
    pub message: String,
    pub data: Vec<DataEntry>,
}

/// The mathematical value of a payload value.
pub enum DataView {
    Text(Seq<char>),
    Number(u64),
}

/// The mathematical value of a failed tool call.
pub struct ErrorView {
    pub code: ErrorCode,
    pub message: Seq<char>,
    pub data: Seq<(Seq<char>, DataView)>,
}

impl View for DataValue {
    type V = DataView;

    open spec fn view(&self) -> DataView {
        match self {
            DataValue::Text(s) => DataView::Text(s@),
            DataValue::Number(n) => DataView::Number(*n),
        }
    }
}

impl View for DataEntry {
    type V = (Seq<char>, DataView);

    open spec fn view(&self) -> (Seq<char>, DataView) {
        (self.key@, self.value@)
    }
}

impl View for ToolError {
    type V = ErrorView;

    open spec fn view(&self) -> ErrorView {
        ErrorView {
            code: self.code,
            message: self.message@,
            data: self.data@.map_values(|e: DataEntry| e@),
        }
    }
}

/// A text entry of a payload.
pub fn text_entry(key: &str, value: &str) -> (r: DataEntry)
    ensures
        r@ == (key@, DataView::Text(value@)),
{
    DataEntry { key: String::from_str(key), value: DataValue::Text(String::from_str(value)) }
}

/// A numeric entry of a payload.
pub fn number_entry(key: &str, value: u64) -> (r: DataEntry)
    ensures
        r@ == (key@, DataView::Number(value)),
{
    DataEntry { key: String::from_str(key), value: DataValue::Number(value) }
}

/// A payload of two entries, in order.
pub fn two_entries(first: DataEntry, second: DataEntry) -> (r: Vec<DataEntry>)
    ensures
        r@.map_values(|e: DataEntry| e@) == seq![first@, second@],
{
    let mut v: Vec<DataEntry> = Vec::new();
    let ghost f = first@;
    let ghost s = second@;
    v.push(first);
    v.push(second);
    assert(v@.map_values(|e: DataEntry| e@) =~= seq![f, s]);
    v
}

/// A payload of one entry.
pub fn one_entry(only: DataEntry) -> (r: Vec<DataEntry>)
    ensures
        r@.map_values(|e: DataEntry| e@) == seq![only@],
{
    let mut v: Vec<DataEntry> = Vec::new();
    let ghost o = only@;
    v.push(only);
    assert(v@.map_values(|e: DataEntry| e@) =~= seq![o]);
    v
}

} // verus!
