//! The pass over a log: the header is checked, each row of the body is
//! read, events and call stacks are gathered, and at the end the two are
//! joined by position.
//!
//! The pass is all or nothing. It gives every event of the log with its
//! stack, or one error and no event.

use vstd::prelude::*;
use crate::event::{decode_row, decoded, HeapAction, ParseError, Record, RecordView, Stack};
use crate::loader::{decode_lossy, lossy_text};
use crate::pairing::{pair, pair_views, paired, Pair};
use crate::schema::{is_sentinel, sentinel, Schema};
use crate::stacks::{StackAccumulator, Stacks};
use crate::text::{chars_of, pieces, rows, split, split_fields, texts};

verus! {

/// How far a pass has come: what the header has declared, whether the
/// header has ended, the events read so far and the stacks gathered so far.
pub struct Progress {
    pub schema: Schema,
    pub in_body: bool,
    pub events: Seq<HeapAction>,
    pub stacks: Stacks,
}

impl Progress {
    /// The pass before its first row.
    pub open spec fn start() -> Progress {
        Progress {
            schema: Schema::blank(),
            in_body: false,
            events: Seq::empty(),
            stacks: Stacks::empty(),
        }
    }

    /// The pass after one more row.
    ///
    /// In the header, the row that ends it is an error unless all six kinds
    /// of row have been declared, and begins the body if they have; any
    /// other row is taken note of. In the body, an event is added to the
    /// events, a frame to the stacks, and a row that says nothing is passed
    /// over; a row that cannot be read is an error.
    pub open spec fn step(self, fields: Seq<Seq<char>>) -> Result<Progress, ParseError> {
        if !self.in_body {
            if fields == sentinel() {
                if self.schema.complete() {
                    Ok(Progress { in_body: true, ..self })
                } else {
                    Err(ParseError::SchemaMismatch)
                }
            } else {
                Ok(Progress { schema: self.schema.with(fields), ..self })
            }
        } else {
            match decoded(fields) {
                Ok(RecordView::Event(action)) => Ok(
                    Progress { events: self.events.push(action), ..self },
                ),
                Ok(RecordView::Frame { depth, symbol }) => Ok(
                    Progress { stacks: self.stacks.push_frame(depth, symbol), ..self },
                ),
                Ok(RecordView::Other) => Ok(self),
                Err(e) => Err(e),
            }
        }
    }

    /// The pass after a run of rows: each row in turn, up to the first that
    /// is an error.
    pub open spec fn run(self, rows: Seq<Seq<Seq<char>>>) -> Result<Progress, ParseError>
        decreases rows.len(),
    {
        if rows.len() == 0 {
            Ok(self)
        } else {
            match self.run(rows.drop_last()) {
                Ok(before) => before.step(rows.last()),
                Err(e) => Err(e),
            }
        }
    }

    /// What the pass gives when the rows end here: the events joined with
    /// the stacks, the open stack counted if it holds a frame.
    pub open spec fn outcome(self) -> Result<Seq<Pair>, ParseError> {
        paired(self.events, self.stacks.sealed())
    }
}

/// What a pass over the rows gives.
pub open spec fn parsed_rows(rows: Seq<Seq<Seq<char>>>) -> Result<Seq<Pair>, ParseError> {
    match Progress::start().run(rows) {
        Ok(end) => end.outcome(),
        Err(e) => Err(e),
    }
}

/// What a pass over the text of a log gives.
pub open spec fn parsed(text: Seq<char>) -> Result<Seq<Pair>, ParseError> {
    parsed_rows(rows(text))
}

/// An error ends the pass: the rows after it change nothing.
pub proof fn lemma_error_ends_run(
    progress: Progress,
    rows: Seq<Seq<Seq<char>>>,
    k: int,
    e: ParseError,
)
    requires
        0 <= k <= rows.len(),
        progress.run(rows.take(k)) == Err::<Progress, ParseError>(e),
    ensures
        progress.run(rows) == Err::<Progress, ParseError>(e),
    decreases rows.len() - k,
{
    if k == rows.len() {
        assert(rows.take(k) =~= rows);
    } else {
        assert(rows.take(k + 1).drop_last() =~= rows.take(k));
        lemma_error_ends_run(progress, rows, k + 1, e);
    }
}

/// The state of a pass.
struct Pass {
    schema: Schema,
    in_body: bool,
    events: Vec<HeapAction>,
    stacks: StackAccumulator,
}

impl View for Pass {
    type V = Progress;

    closed spec fn view(&self) -> Progress {
        Progress {
            schema: self.schema,
            in_body: self.in_body,
            events: self.events@,
            stacks: self.stacks@,
        }
    }
}

impl Pass {
    fn new() -> (pass: Pass)
        ensures
            pass@ == Progress::start(),
    {
        Pass {
            schema: Schema::new(),
            in_body: false,
            events: Vec::new(),
            stacks: StackAccumulator::new(),
        }
    }

    fn step(&mut self, fields: &[&[char]]) -> (r: Result<(), ParseError>)
        ensures
            match r {
                Ok(()) => old(self)@.step(texts(fields@)) == Ok::<Progress, ParseError>(
                    final(self)@,
                ),
                Err(e) => old(self)@.step(texts(fields@)) == Err::<Progress, ParseError>(e),
            },
    {
        if !self.in_body {
            if is_sentinel(fields) {
                if !self.schema.is_complete() {
                    return Err(ParseError::SchemaMismatch);
                }
                self.in_body = true;
            } else {
                self.schema.note(fields);
            }
        } else {
            match decode_row(fields)? {
                Record::Event(action) => {
                    self.events.push(action);
                },
                Record::Frame { depth, symbol } => {
                    self.stacks.push_frame(depth, symbol);
                },
                Record::Other => {},
            }
        }
        Ok(())
    }

    fn finish(self) -> (r: Result<Vec<(HeapAction, Stack)>, ParseError>)
        ensures
            match r {
                Ok(pairs) => self@.outcome() == Ok::<Seq<Pair>, ParseError>(pair_views(pairs@)),
                Err(e) => self@.outcome() == Err::<Seq<Pair>, ParseError>(e),
            },
    {
        pair(self.events, self.stacks.finish())
    }
}

/// Parses the text of a log into its heap events, each with the call stack
/// that was taken when it happened, in the order of the log.
pub fn parse_text(text: &str) -> (r: Result<Vec<(HeapAction, Stack)>, ParseError>)
    ensures
        match r {
            Ok(pairs) => parsed(text@) == Ok::<Seq<Pair>, ParseError>(pair_views(pairs@)),
            Err(e) => parsed(text@) == Err::<Seq<Pair>, ParseError>(e),
        },
{
    let chars = chars_of(text);
    let lines = split(chars.as_slice(), '\n');
    let mut pass = Pass::new();
    let mut i: usize = 0;
    while i < lines.len()
        invariant
            i <= lines.len(),
            texts(lines@) == pieces(text@, '\n'),
            Progress::start().run(rows(text@).take(i as int)) == Ok::<Progress, ParseError>(pass@),
        decreases lines.len() - i,
    {
        let fields = split_fields(lines[i]);
        proof {
            assert(rows(text@)[i as int] == texts(fields@));
            assert(rows(text@).take(i + 1).drop_last() =~= rows(text@).take(i as int));
        }
        match pass.step(fields.as_slice()) {
            Ok(()) => {},
            Err(e) => {
                proof {
                    lemma_error_ends_run(Progress::start(), rows(text@), i + 1, e);
                }
                return Err(e);
            },
        }
        i += 1;
    }
    assert(rows(text@).take(i as int) =~= rows(text@));
    pass.finish()
}

/// Parses the bytes of a log into its heap events, each with the call stack
/// that was taken when it happened, in the order of the log. The bytes are
/// read as UTF-8, and bytes that are none as the replacement character.
pub fn parse(raw: &[u8]) -> (r: Result<Vec<(HeapAction, Stack)>, ParseError>)
    ensures
        match r {
            Ok(pairs) => parsed(lossy_text(raw@)) == Ok::<Seq<Pair>, ParseError>(
                pair_views(pairs@),
            ),
            Err(e) => parsed(lossy_text(raw@)) == Err::<Seq<Pair>, ParseError>(e),
        },
{
    let text = decode_lossy(raw);
    parse_text(text.as_str())
}

} // verus!
