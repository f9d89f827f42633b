//! The heap events of a log, the call stacks that go with them, and the
//! reading of one row of the log's body.
//!
//! A row is read by the position of its fields, which the header check has
//! made safe; its first field says what kind of row it is.

use vstd::prelude::*;
use crate::number::{decimal_number, decimal_value, hex_number, hex_value};
use crate::text::{same_text, string_of, texts};

verus! {

/// A call stack: the symbols of its frames as the log gives them, the
/// innermost frame first.
#[derive(Debug, PartialEq, Eq)]
pub struct Stack(pub Vec<String>);

impl Clone for Stack {
    fn clone(&self) -> (r: Stack)
        ensures
            r@ == self@,
    {
        let symbols = self.0.clone();
        Stack(symbols)
    }
}

impl View for Stack {
    type V = Seq<Seq<char>>;

    open spec fn view(&self) -> Seq<Seq<char>> {
        self.0@.map_values(|symbol: String| symbol@)
    }
}

/// One operation on a heap. The numbers are the handle, the addresses and
/// the sizes in bytes as the log gives them.
#[derive(Clone, Copy, Debug, PartialEq, Eq, Structural)]
pub enum HeapAction {
    Create { heap: u64 },
    Destroy { heap: u64 },
    Alloc { heap: u64, address: u64, size: u64 },
    Free { heap: u64, address: u64 },
    Realloc { heap: u64, new_address: u64, old_address: u64, new_size: u64, old_size: u64 },
}

/// Why a log is refused.
#[derive(Clone, Copy, Debug, PartialEq, Eq, Structural)]
pub enum ParseError {
    /// The header ends before it has declared all six kinds of row with the
    /// columns that this parser reads.
    SchemaMismatch,
    /// A row of the body has the tag of an event or of a stack frame and
    /// cannot be read as one: a field that the row is read by is missing,
    /// or a field that has to hold a number holds none.
    MalformedField,
    /// The log holds another number of events than of call stacks.
    CountMismatch,
}

/// What a row of the body says.
pub enum Record {
    /// A heap event.
    Event(HeapAction),
    /// One frame of a call stack, with its depth in the stack.
    Frame { depth: u64, symbol: String },
    /// Nothing that this parser reads.
    Other,
}

/// The model of a `Record`.
pub enum RecordView {
    Event(HeapAction),
    Frame { depth: u64, symbol: Seq<char> },
    Other,
}

impl View for Record {
    type V = RecordView;

    open spec fn view(&self) -> RecordView {
        match *self {
            Record::Event(action) => RecordView::Event(action),
            Record::Frame { depth, symbol } => RecordView::Frame { depth, symbol: symbol@ },
            Record::Other => RecordView::Other,
        }
    }
}

/// The tag of a row that tells of a heap being created.
pub const HEAP_CREATE: &'static str = "HeapCreate";

/// The tag of a row that tells of a heap being destroyed.
pub const HEAP_DESTROY: &'static str = "HeapDestroy";

/// The tag of a row that tells of an allocation.
pub const HEAP_ALLOC: &'static str = "HeapAlloc";

/// The tag of a row that tells of memory being freed.
pub const HEAP_FREE: &'static str = "HeapFree";

/// The tag of a row that tells of a reallocation.
pub const HEAP_REALLOC: &'static str = "HeapRealloc";

/// The tag of a row that holds one frame of a call stack.
pub const STACK: &'static str = "Stack";

/// The number that the hexadecimal field at index `i` writes; `None` where
/// the row has no such field or the field writes none.
pub open spec fn hex_at(fields: Seq<Seq<char>>, i: int) -> Option<u64> {
    if 0 <= i < fields.len() {
        hex_number(fields[i])
    } else {
        None
    }
}

/// The number that the decimal field at index `i` writes; `None` where the
/// row has no such field or the field writes none.
pub open spec fn decimal_at(fields: Seq<Seq<char>>, i: int) -> Option<u64> {
    if 0 <= i < fields.len() {
        decimal_number(fields[i])
    } else {
        None
    }
}

/// The event that a row with the tag of an event writes: the heap handle in
/// field 4, the addresses and sizes in the fields after it.
pub open spec fn event_of(fields: Seq<Seq<char>>) -> Option<HeapAction>
    recommends
        fields.len() > 0,
{
    let tag = fields[0];
    if tag == HEAP_CREATE@ {
        match hex_at(fields, 4) {
            Some(heap) => Some(HeapAction::Create { heap }),
            None => None,
        }
    } else if tag == HEAP_DESTROY@ {
        match hex_at(fields, 4) {
            Some(heap) => Some(HeapAction::Destroy { heap }),
            None => None,
        }
    } else if tag == HEAP_ALLOC@ {
        match (hex_at(fields, 4), hex_at(fields, 5), hex_at(fields, 6)) {
            (Some(heap), Some(address), Some(size)) => Some(
                HeapAction::Alloc { heap, address, size },
            ),
            _ => None,
        }
    } else if tag == HEAP_FREE@ {
        match (hex_at(fields, 4), hex_at(fields, 5)) {
            (Some(heap), Some(address)) => Some(HeapAction::Free { heap, address }),
            _ => None,
        }
    } else if tag == HEAP_REALLOC@ {
        match (
            hex_at(fields, 4),
            hex_at(fields, 5),
            hex_at(fields, 6),
            hex_at(fields, 7),
            hex_at(fields, 8),
        ) {
            (Some(heap), Some(new_address), Some(old_address), Some(new_size), Some(old_size)) => {
                Some(HeapAction::Realloc { heap, new_address, old_address, new_size, old_size })
            },
            _ => None,
        }
    } else {
        None
    }
}

/// Whether the first field of a row is the tag of a heap event.
pub open spec fn is_event_tag(tag: Seq<char>) -> bool {
    ||| tag == HEAP_CREATE@
    ||| tag == HEAP_DESTROY@
    ||| tag == HEAP_ALLOC@
    ||| tag == HEAP_FREE@
    ||| tag == HEAP_REALLOC@
}

/// The frame that a row with the tag `Stack` writes: its depth, a decimal
/// number, in field 3, and its symbol, kept as it is, in field 5. No other
/// field of the row is read; the frame's address in field 4 may hold
/// anything.
pub open spec fn frame_of(fields: Seq<Seq<char>>) -> Option<(u64, Seq<char>)> {
    match decimal_at(fields, 3) {
        Some(depth) => if fields.len() > 5 {
            Some((depth, fields[5]))
        } else {
            None
        },
        None => None,
    }
}

/// What a row of the body says, or the error where it has the tag of an
/// event or of a frame and cannot be read as one. A row with any other tag,
/// a blank line among them, says nothing and is no error.
pub open spec fn decoded(fields: Seq<Seq<char>>) -> Result<RecordView, ParseError> {
    if fields.len() == 0 {
        Ok(RecordView::Other)
    } else if is_event_tag(fields[0]) {
        match event_of(fields) {
            Some(action) => Ok(RecordView::Event(action)),
            None => Err(ParseError::MalformedField),
        }
    } else if fields[0] == STACK@ {
        match frame_of(fields) {
            Some((depth, symbol)) => Ok(RecordView::Frame { depth, symbol }),
            None => Err(ParseError::MalformedField),
        }
    } else {
        Ok(RecordView::Other)
    }
}

/// The number in the hexadecimal field at index `i`.
fn hex_field(fields: &[&[char]], i: usize) -> (r: Result<u64, ParseError>)
    ensures
        match r {
            Ok(value) => hex_at(texts(fields@), i as int) == Some(value),
            Err(e) => e == ParseError::MalformedField && hex_at(texts(fields@), i as int) is None,
        },
{
    if i < fields.len() {
        match hex_value(fields[i]) {
            Some(value) => Ok(value),
            None => Err(ParseError::MalformedField),
        }
    } else {
        Err(ParseError::MalformedField)
    }
}

/// The number in the decimal field at index `i`.
fn decimal_field(fields: &[&[char]], i: usize) -> (r: Result<u64, ParseError>)
    ensures
        match r {
            Ok(value) => decimal_at(texts(fields@), i as int) == Some(value),
            Err(e) => e == ParseError::MalformedField && decimal_at(texts(fields@), i as int)
                is None,
        },
{
    if i < fields.len() {
        match decimal_value(fields[i]) {
            Some(value) => Ok(value),
            None => Err(ParseError::MalformedField),
        }
    } else {
        Err(ParseError::MalformedField)
    }
}

/// Reads one row of the body from its fields.
pub fn decode_row(fields: &[&[char]]) -> (r: Result<Record, ParseError>)
    ensures
        match r {
            Ok(record) => decoded(texts(fields@)) == Ok::<RecordView, ParseError>(record@),
            Err(e) => decoded(texts(fields@)) == Err::<RecordView, ParseError>(e),
        },
{
    if fields.len() == 0 {
        return Ok(Record::Other);
    }
    let tag = fields[0];
    if same_text(tag, HEAP_CREATE) {
        let heap = hex_field(fields, 4)?;
        Ok(Record::Event(HeapAction::Create { heap }))
    } else if same_text(tag, HEAP_DESTROY) {
        let heap = hex_field(fields, 4)?;
        Ok(Record::Event(HeapAction::Destroy { heap }))
    } else if same_text(tag, HEAP_ALLOC) {
        let heap = hex_field(fields, 4)?;
        let address = hex_field(fields, 5)?;
        let size = hex_field(fields, 6)?;
        Ok(Record::Event(HeapAction::Alloc { heap, address, size }))
    } else if same_text(tag, HEAP_FREE) {
        let heap = hex_field(fields, 4)?;
        let address = hex_field(fields, 5)?;
        Ok(Record::Event(HeapAction::Free { heap, address }))
    } else if same_text(tag, HEAP_REALLOC) {
        let heap = hex_field(fields, 4)?;
        let new_address = hex_field(fields, 5)?;
        let old_address = hex_field(fields, 6)?;
        let new_size = hex_field(fields, 7)?;
        let old_size = hex_field(fields, 8)?;
        Ok(
            Record::Event(
                HeapAction::Realloc { heap, new_address, old_address, new_size, old_size },
            ),
        )
    } else if same_text(tag, STACK) {
        let depth = decimal_field(fields, 3)?;
        if fields.len() > 5 {
            Ok(Record::Frame { depth, symbol: string_of(fields[5]) })
        } else {
            Err(ParseError::MalformedField)
        }
    } else {
        Ok(Record::Other)
    }
}

} // verus!
