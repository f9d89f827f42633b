//! The header of a log: the columns that each kind of row is declared with,
//! and the record of which declarations have been seen.
//!
//! The rows of the body are read by position. That is safe only on a log
//! that declares, for each of the six kinds of row, exactly the columns
//! listed here, in this order.

use vstd::prelude::*;
use crate::text::{same_text, texts};

verus! {

/// The kinds of row that the parser reads.
#[derive(Clone, Copy, Debug, PartialEq, Eq, Structural)]
pub enum RowKind {
    Create,
    Destroy,
    Alloc,
    Free,
    Realloc,
    Stack,
}

/// The columns of a row that tells of a heap being created.
pub const CREATE_COLUMNS: [&'static str; 9] = [
    "HeapCreate",
    "TimeStamp",
    "Process Name ( PID)",
    "ThreadID",
    "HeapHandle",
    "Flags",
    "ReserveSize",
    "CommitSize",
    "AllocatedSize",
];

/// The columns of a row that tells of a heap being destroyed.
pub const DESTROY_COLUMNS: [&'static str; 5] = [
    "HeapDestroy",
    "TimeStamp",
    "Process Name ( PID)",
    "ThreadID",
    "HeapHandle",
];

/// The columns of a row that tells of an allocation.
pub const ALLOC_COLUMNS: [&'static str; 8] = [
    "HeapAlloc",
    "TimeStamp",
    "Process Name ( PID)",
    "ThreadID",
    "HeapHandle",
    "Address",
    "Size",
    "Source",
];

/// The columns of a row that tells of memory being freed.
pub const FREE_COLUMNS: [&'static str; 8] = [
    "HeapFree",
    "TimeStamp",
    "Process Name ( PID)",
    "ThreadID",
    "HeapHandle",
    "Address",
    "__Reserved",
    "Source",
];

/// The columns of a row that tells of a reallocation.
pub const REALLOC_COLUMNS: [&'static str; 10] = [
    "HeapRealloc",
    "TimeStamp",
    "Process Name ( PID)",
    "ThreadID",
    "HeapHandle",
    "NewAddress",
    "OldAddress",
    "NewSize",
    "OldSize",
    "Source",
];

/// The columns of a row that holds one frame of a call stack.
pub const STACK_COLUMNS: [&'static str; 6] = [
    "Stack",
    "TimeStamp",
    "ThreadID",
    "No.",
    "Address",
    "Image!Function",
];

/// The only field of the row that ends the header.
pub const END_HEADER: &'static str = "EndHeader";

/// The texts of a list of column names.
pub open spec fn names(columns: Seq<&'static str>) -> Seq<Seq<char>> {
    columns.map_values(|name: &'static str| name@)
}

/// The fields of the header row that declares a kind of row.
pub open spec fn layout(kind: RowKind) -> Seq<Seq<char>> {
    match kind {
        RowKind::Create => names(CREATE_COLUMNS@),
        RowKind::Destroy => names(DESTROY_COLUMNS@),
        RowKind::Alloc => names(ALLOC_COLUMNS@),
        RowKind::Free => names(FREE_COLUMNS@),
        RowKind::Realloc => names(REALLOC_COLUMNS@),
        RowKind::Stack => names(STACK_COLUMNS@),
    }
}

/// The fields of the row that ends the header.
pub open spec fn sentinel() -> Seq<Seq<char>> {
    seq![END_HEADER@]
}

/// Which kinds of row the header has declared so far.
#[derive(Clone, Copy, Debug, PartialEq, Eq, Structural)]
pub struct Schema {
    pub create: bool,
    pub destroy: bool,
    pub alloc: bool,
    pub free: bool,
    pub realloc: bool,
    pub stack: bool,
}

impl Schema {
    /// The record of a header of which no row has been seen.
    pub open spec fn blank() -> Schema {
        Schema {
            create: false,
            destroy: false,
            alloc: false,
            free: false,
            realloc: false,
            stack: false,
        }
    }

    /// Whether the kind has been declared.
    pub open spec fn declares(self, kind: RowKind) -> bool {
        match kind {
            RowKind::Create => self.create,
            RowKind::Destroy => self.destroy,
            RowKind::Alloc => self.alloc,
            RowKind::Free => self.free,
            RowKind::Realloc => self.realloc,
            RowKind::Stack => self.stack,
        }
    }

    /// Whether all six kinds have been declared.
    pub open spec fn complete(self) -> bool {
        self.create && self.destroy && self.alloc && self.free && self.realloc && self.stack
    }

    /// The record after one more header row: a kind is declared by a row
    /// that is exactly its layout, and stays declared. Any other row
    /// changes nothing.
    pub open spec fn with(self, fields: Seq<Seq<char>>) -> Schema {
        Schema {
            create: self.create || fields == layout(RowKind::Create),
            destroy: self.destroy || fields == layout(RowKind::Destroy),
            alloc: self.alloc || fields == layout(RowKind::Alloc),
            free: self.free || fields == layout(RowKind::Free),
            realloc: self.realloc || fields == layout(RowKind::Realloc),
            stack: self.stack || fields == layout(RowKind::Stack),
        }
    }

    /// The record after a run of header rows.
    pub open spec fn with_all(self, header: Seq<Seq<Seq<char>>>) -> Schema
        decreases header.len(),
    {
        if header.len() == 0 {
            self
        } else {
            self.with_all(header.drop_last()).with(header.last())
        }
    }

    /// A kind is declared after a run of header rows exactly if it was
    /// declared before or one of the rows is its layout, wherever in the
    /// run that row stands.
    pub proof fn lemma_with_all(self, header: Seq<Seq<Seq<char>>>, kind: RowKind)
        ensures
            self.with_all(header).declares(kind) <==> self.declares(kind) || header.contains(
                layout(kind),
            ),
        decreases header.len(),
    {
        if header.len() > 0 {
            let init = header.drop_last();
            self.lemma_with_all(init, kind);
            if init.contains(layout(kind)) {
                let i = choose|i: int| 0 <= i < init.len() && init[i] == layout(kind);
                assert(header[i] == layout(kind));
            }
            if header.last() == layout(kind) {
                assert(header[header.len() - 1] == layout(kind));
            }
            if header.contains(layout(kind)) {
                let i = choose|i: int| 0 <= i < header.len() && header[i] == layout(kind);
                if i < init.len() {
                    assert(init[i] == layout(kind));
                }
            }
        }
    }

    /// The record of a header of which no row has been seen.
    pub fn new() -> (schema: Schema)
        ensures
            schema == Schema::blank(),
    {
        Schema {
            create: false,
            destroy: false,
            alloc: false,
            free: false,
            realloc: false,
            stack: false,
        }
    }

    /// Takes note of one header row.
    pub fn note(&mut self, fields: &[&[char]])
        ensures
            *final(self) == old(self).with(texts(fields@)),
    {
        proof {
            lemma_layouts_differ();
        }
        if is_layout(fields, RowKind::Alloc) {
            self.alloc = true;
        } else if is_layout(fields, RowKind::Free) {
            self.free = true;
        } else if is_layout(fields, RowKind::Realloc) {
            self.realloc = true;
        } else if is_layout(fields, RowKind::Create) {
            self.create = true;
        } else if is_layout(fields, RowKind::Destroy) {
            self.destroy = true;
        } else if is_layout(fields, RowKind::Stack) {
            self.stack = true;
        }
    }

    /// Whether all six kinds have been declared.
    pub fn is_complete(&self) -> (r: bool)
        ensures
            r == self.complete(),
    {
        self.create && self.destroy && self.alloc && self.free && self.realloc && self.stack
    }
}

/// No two kinds of row have the same layout, and no layout is the row that
/// ends the header.
pub proof fn lemma_layouts_differ()
    ensures
        forall|a: RowKind, b: RowKind| a != b ==> #[trigger] layout(a) != #[trigger] layout(b),
        forall|a: RowKind| #[trigger] layout(a) != sentinel(),
{
    reveal_strlit("HeapCreate");
    reveal_strlit("HeapDestroy");
    reveal_strlit("HeapAlloc");
    reveal_strlit("HeapFree");
    reveal_strlit("HeapRealloc");
    reveal_strlit("Stack");
    assert(layout(RowKind::Create)[0] == "HeapCreate"@);
    assert(layout(RowKind::Destroy)[0] == "HeapDestroy"@);
    assert(layout(RowKind::Alloc)[0] == "HeapAlloc"@);
    assert(layout(RowKind::Free)[0] == "HeapFree"@);
    assert(layout(RowKind::Realloc)[0] == "HeapRealloc"@);
    assert(layout(RowKind::Stack)[0] == "Stack"@);
    assert("HeapDestroy"@[4] != "HeapRealloc"@[4]);
    assert forall|a: RowKind| #[trigger] layout(a) != sentinel() by {
        assert(layout(a).len() >= 5);
    }
}

/// Whether the fields are, one by one, the names of the columns.
fn columns_match(fields: &[&[char]], columns: &[&'static str]) -> (r: bool)
    ensures
        r == (texts(fields@) == names(columns@)),
{
    if fields.len() != columns.len() {
        assert(texts(fields@).len() != names(columns@).len());
        return false;
    }
    let mut i: usize = 0;
    while i < fields.len()
        invariant
            i <= fields.len(),
            fields.len() == columns.len(),
            forall|k: int| 0 <= k < i ==> (#[trigger] fields@[k])@ == columns@[k]@,
        decreases fields.len() - i,
    {
        if !same_text(fields[i], columns[i]) {
            assert(texts(fields@)[i as int] != names(columns@)[i as int]);
            return false;
        }
        i += 1;
    }
    assert(texts(fields@) =~= names(columns@));
    true
}

/// Whether a row is the header row that declares the kind.
pub fn is_layout(fields: &[&[char]], kind: RowKind) -> (r: bool)
    ensures
        r == (texts(fields@) == layout(kind)),
{
    match kind {
        RowKind::Create => columns_match(fields, &CREATE_COLUMNS),
        RowKind::Destroy => columns_match(fields, &DESTROY_COLUMNS),
        RowKind::Alloc => columns_match(fields, &ALLOC_COLUMNS),
        RowKind::Free => columns_match(fields, &FREE_COLUMNS),
        RowKind::Realloc => columns_match(fields, &REALLOC_COLUMNS),
        RowKind::Stack => columns_match(fields, &STACK_COLUMNS),
    }
}

/// Whether a row is the one that ends the header.
pub fn is_sentinel(fields: &[&[char]]) -> (r: bool)
    ensures
        r == (texts(fields@) == sentinel()),
{
    if fields.len() == 1 && same_text(fields[0], END_HEADER) {
        assert(texts(fields@) =~= sentinel());
        true
    } else {
        assert(texts(fields@) != sentinel()) by {
            if fields.len() == 1 {
                assert(texts(fields@)[0] != sentinel()[0]);
            } else {
                assert(texts(fields@).len() != sentinel().len());
            }
        }
        false
    }
}

} // verus!
