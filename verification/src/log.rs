//! What a log says, read as a whole: its header, its body, the events and
//! the call stacks of the body. The pass over the rows gives exactly that,
//! which is proved here, and with it what follows for every log.

use vstd::prelude::*;
use crate::event::{decoded, HeapAction, ParseError, RecordView};
use crate::pairing::{joined, lemma_pairs_keep_place, paired, Pair};
use crate::parser::{parsed, parsed_rows, Progress};
use crate::schema::{layout, sentinel, RowKind, Schema};
use crate::stacks::{Frame, Stacks};
use crate::text::rows;

verus! {

/// The number of rows before the first row that ends the header; where no
/// row ends it, the number of all rows.
pub open spec fn header_len(rows: Seq<Seq<Seq<char>>>) -> int
    decreases rows.len(),
{
    if rows.len() == 0 || rows[0] == sentinel() {
        0
    } else {
        1 + header_len(rows.drop_first())
    }
}

/// Whether a row ends the header.
pub open spec fn has_body(rows: Seq<Seq<Seq<char>>>) -> bool {
    header_len(rows) < rows.len()
}

/// The rows of the header: those before the first row that ends it.
pub open spec fn header_of(rows: Seq<Seq<Seq<char>>>) -> Seq<Seq<Seq<char>>> {
    rows.take(header_len(rows))
}

/// The rows of the body: those after the first row that ends the header.
pub open spec fn body_of(rows: Seq<Seq<Seq<char>>>) -> Seq<Seq<Seq<char>>> {
    if has_body(rows) {
        rows.skip(header_len(rows) + 1)
    } else {
        Seq::empty()
    }
}

/// Whether the header declares all six kinds of row.
pub open spec fn declares_all(header: Seq<Seq<Seq<char>>>) -> bool {
    forall|kind: RowKind| header.contains(#[trigger] layout(kind))
}

/// Whether every row of a body can be read.
pub open spec fn readable(body: Seq<Seq<Seq<char>>>) -> bool {
    forall|i: int| 0 <= i < body.len() ==> (#[trigger] decoded(body[i])) is Ok
}

/// The events of a body, in the order of their rows.
pub open spec fn events_of(body: Seq<Seq<Seq<char>>>) -> Seq<HeapAction>
    decreases body.len(),
{
    if body.len() == 0 {
        Seq::empty()
    } else {
        let before = events_of(body.drop_last());
        match decoded(body.last()) {
            Ok(RecordView::Event(action)) => before.push(action),
            _ => before,
        }
    }
}

/// The stack frames of a body, in the order of their rows.
pub open spec fn frames_of(body: Seq<Seq<Seq<char>>>) -> Seq<Frame>
    decreases body.len(),
{
    if body.len() == 0 {
        Seq::empty()
    } else {
        let before = frames_of(body.drop_last());
        match decoded(body.last()) {
            Ok(RecordView::Frame { depth, symbol }) => before.push(Frame { depth, symbol }),
            _ => before,
        }
    }
}

/// The call stacks of a body, in the order in which they were completed.
pub open spec fn stacks_of(body: Seq<Seq<Seq<char>>>) -> Seq<Seq<Seq<char>>> {
    Stacks::empty().push_frames(frames_of(body)).sealed()
}

/// What a log says. Without a row that ends the header it has no body and
/// says nothing. With one, its header has to declare all six kinds of row
/// and every row of its body has to be readable; it then says the events of
/// its body, each with the stack at the same place.
pub open spec fn reading(rows: Seq<Seq<Seq<char>>>) -> Result<Seq<Pair>, ParseError> {
    if !has_body(rows) {
        Ok(Seq::empty())
    } else if !declares_all(header_of(rows)) {
        Err(ParseError::SchemaMismatch)
    } else if !readable(body_of(rows)) {
        Err(ParseError::MalformedField)
    } else {
        paired(events_of(body_of(rows)), stacks_of(body_of(rows)))
    }
}

/// The header holds no row that ends it, and the row behind it, where
/// there is one, does end it.
pub proof fn lemma_header_len(rows: Seq<Seq<Seq<char>>>)
    ensures
        0 <= header_len(rows) <= rows.len(),
        forall|i: int| 0 <= i < header_len(rows) ==> rows[i] != sentinel(),
        has_body(rows) ==> rows[header_len(rows)] == sentinel(),
    decreases rows.len(),
{
    if !(rows.len() == 0 || rows[0] == sentinel()) {
        let rest = rows.drop_first();
        lemma_header_len(rest);
        assert forall|i: int| 0 <= i < header_len(rows) implies rows[i] != sentinel() by {
            if i > 0 {
                assert(rows[i] == rest[i - 1]);
            }
        }
    }
}

/// A pass over two runs of rows, one after the other, is a pass over the
/// first and, if that is no error, a pass over the second from where the
/// first ended.
pub proof fn lemma_run_in_two(
    progress: Progress,
    first: Seq<Seq<Seq<char>>>,
    second: Seq<Seq<Seq<char>>>,
)
    ensures
        progress.run(first + second) == match progress.run(first) {
            Ok(between) => between.run(second),
            Err(e) => Err(e),
        },
    decreases second.len(),
{
    if second.len() > 0 {
        assert((first + second).drop_last() =~= first + second.drop_last());
        lemma_run_in_two(progress, first, second.drop_last());
    }
}

/// In the header, rows that do not end it are taken note of and change
/// nothing else.
pub proof fn lemma_run_in_header(progress: Progress, header: Seq<Seq<Seq<char>>>)
    requires
        !progress.in_body,
        forall|i: int| 0 <= i < header.len() ==> header[i] != sentinel(),
    ensures
        progress.run(header) == Ok::<Progress, ParseError>(
            Progress { schema: progress.schema.with_all(header), ..progress },
        ),
    decreases header.len(),
{
    if header.len() > 0 {
        lemma_run_in_header(progress, header.drop_last());
    }
}

/// In the body, a run of rows is an error if one of them cannot be read.
/// If all can, their events are added to the events and their frames to
/// the stacks, in the order of the rows, and nothing else changes.
pub proof fn lemma_run_in_body(progress: Progress, body: Seq<Seq<Seq<char>>>)
    requires
        progress.in_body,
    ensures
        readable(body) ==> progress.run(body) == Ok::<Progress, ParseError>(
            Progress {
                events: progress.events + events_of(body),
                stacks: progress.stacks.push_frames(frames_of(body)),
                ..progress
            },
        ),
        !readable(body) ==> progress.run(body) == Err::<Progress, ParseError>(
            ParseError::MalformedField,
        ),
    decreases body.len(),
{
    if body.len() > 0 {
        let init = body.drop_last();
        lemma_run_in_body(progress, init);
        if readable(body) {
            assert(readable(init)) by {
                assert forall|i: int| 0 <= i < init.len() implies (#[trigger] decoded(
                    init[i],
                )) is Ok by {
                    assert(init[i] == body[i]);
                }
            }
            if let Ok(RecordView::Frame { depth, symbol }) = decoded(body.last()) {
                let frame = Frame { depth, symbol };
                assert(frames_of(init).push(frame).drop_last() =~= frames_of(init));
            }
        } else if readable(init) {
            let i = choose|i: int| 0 <= i < body.len() && !(#[trigger] decoded(body[i]) is Ok);
            if i < init.len() {
                assert(init[i] == body[i]);
            }
        } else {
            let i = choose|i: int| 0 <= i < init.len() && !(#[trigger] decoded(init[i]) is Ok);
            assert(init[i] == body[i]);
        }
    }
}

/// The header declares a kind exactly if the record of its rows does.
pub proof fn lemma_declares_all(header: Seq<Seq<Seq<char>>>)
    ensures
        declares_all(header) <==> Schema::blank().with_all(header).complete(),
{
    Schema::blank().lemma_with_all(header, RowKind::Create);
    Schema::blank().lemma_with_all(header, RowKind::Destroy);
    Schema::blank().lemma_with_all(header, RowKind::Alloc);
    Schema::blank().lemma_with_all(header, RowKind::Free);
    Schema::blank().lemma_with_all(header, RowKind::Realloc);
    Schema::blank().lemma_with_all(header, RowKind::Stack);
    if Schema::blank().with_all(header).complete() {
        assert forall|kind: RowKind| header.contains(#[trigger] layout(kind)) by {
            Schema::blank().lemma_with_all(header, kind);
        }
    }
}

/// The pass as it stands when the body begins: the header's record, and
/// nothing gathered yet.
pub open spec fn entered(rows: Seq<Seq<Seq<char>>>) -> Progress {
    Progress {
        schema: Schema::blank().with_all(header_of(rows)),
        in_body: true,
        ..Progress::start()
    }
}

/// The pass over the header and the row that ends it is an error where the
/// header does not declare all six kinds of row. Where it does, the pass
/// stands at the beginning of the body, with all six on record and nothing
/// gathered yet.
pub proof fn lemma_run_to_body(rows: Seq<Seq<Seq<char>>>)
    requires
        has_body(rows),
    ensures
        rows == rows.take(header_len(rows) + 1) + body_of(rows),
        declares_all(header_of(rows)) <==> entered(rows).schema.complete(),
        Progress::start().run(rows.take(header_len(rows) + 1)) == if declares_all(
            header_of(rows),
        ) {
            Ok::<Progress, ParseError>(entered(rows))
        } else {
            Err::<Progress, ParseError>(ParseError::SchemaMismatch)
        },
{
    let start = Progress::start();
    let header = header_of(rows);
    let gate = seq![sentinel()];
    lemma_header_len(rows);
    lemma_run_in_header(start, header);
    lemma_declares_all(header);
    assert(rows.take(header_len(rows) + 1) =~= header + gate);
    assert(rows =~= rows.take(header_len(rows) + 1) + body_of(rows));
    lemma_run_in_two(start, header, gate);
    let noted = Progress { schema: Schema::blank().with_all(header), ..start };
    assert(noted.run(gate) == noted.step(sentinel())) by {
        assert(noted.run(gate.drop_last()) == Ok::<Progress, ParseError>(noted));
    }
}

/// The pass over the rows of a log gives what the log says.
pub proof fn lemma_pass_gives_reading(rows: Seq<Seq<Seq<char>>>)
    ensures
        parsed_rows(rows) == reading(rows),
{
    let start = Progress::start();
    if !has_body(rows) {
        lemma_header_len(rows);
        lemma_run_in_header(start, header_of(rows));
        assert(header_of(rows) =~= rows);
        assert(joined(Seq::empty(), Stacks::empty().sealed()) =~= Seq::<Pair>::empty());
    } else {
        lemma_run_to_body(rows);
        lemma_run_in_two(start, rows.take(header_len(rows) + 1), body_of(rows));
        if declares_all(header_of(rows)) {
            lemma_run_in_body(entered(rows), body_of(rows));
        }
    }
}

/// A log is parsed with success exactly if it has no body, or its header
/// declares all six kinds of row, every row of its body can be read, and
/// the body holds as many call stacks as events.
pub proof fn lemma_success(text: Seq<char>)
    ensures
        parsed(text) is Ok <==> {
            ||| !has_body(rows(text))
            ||| {
                &&& declares_all(header_of(rows(text)))
                &&& readable(body_of(rows(text)))
                &&& events_of(body_of(rows(text))).len() == stacks_of(body_of(rows(text))).len()
            }
        },
{
    lemma_pass_gives_reading(rows(text));
}

/// Each error comes on its own logs. The header's error comes where a row
/// ends a header that does not declare all six kinds. The error of a field
/// comes where the header is in order and a row of the body cannot be
/// read. The error of the count comes where header and body are in order
/// and the body holds another number of call stacks than of events.
pub proof fn lemma_errors(text: Seq<char>)
    ensures
        parsed(text) == Err::<Seq<Pair>, ParseError>(ParseError::SchemaMismatch) <==> {
            &&& has_body(rows(text))
            &&& !declares_all(header_of(rows(text)))
        },
        parsed(text) == Err::<Seq<Pair>, ParseError>(ParseError::MalformedField) <==> {
            &&& has_body(rows(text))
            &&& declares_all(header_of(rows(text)))
            &&& !readable(body_of(rows(text)))
        },
        parsed(text) == Err::<Seq<Pair>, ParseError>(ParseError::CountMismatch) <==> {
            &&& has_body(rows(text))
            &&& declares_all(header_of(rows(text)))
            &&& readable(body_of(rows(text)))
            &&& events_of(body_of(rows(text))).len() != stacks_of(body_of(rows(text))).len()
        },
{
    lemma_pass_gives_reading(rows(text));
}

/// Where a log is parsed with success, there are as many pairs as the body
/// holds events and as it holds call stacks.
pub proof fn lemma_counts_agree(text: Seq<char>)
    requires
        parsed(text) is Ok,
    ensures
        parsed(text)->Ok_0.len() == events_of(body_of(rows(text))).len(),
        parsed(text)->Ok_0.len() == stacks_of(body_of(rows(text))).len(),
{
    let body = body_of(rows(text));
    lemma_pass_gives_reading(rows(text));
    lemma_pairs_keep_place(events_of(body), stacks_of(body));
}

/// Where a log is parsed with success, the pair at each place holds the
/// event at that place among the events of the body, in the order of their
/// rows, and the stack at that place among the stacks of the body, in the
/// order in which they were completed.
pub proof fn lemma_order_is_kept(text: Seq<char>)
    requires
        parsed(text) is Ok,
    ensures
        forall|i: int|
            0 <= i < parsed(text)->Ok_0.len() ==> {
                &&& (#[trigger] parsed(text)->Ok_0[i]).0 == events_of(body_of(rows(text)))[i]
                &&& parsed(text)->Ok_0[i].1 == stacks_of(body_of(rows(text)))[i]
            },
{
    let body = body_of(rows(text));
    lemma_pass_gives_reading(rows(text));
    lemma_pairs_keep_place(events_of(body), stacks_of(body));
}

/// Where a row ends the header before all six kinds of row are declared,
/// the log is refused for its header, whatever follows. Where all six are
/// declared before that row, in whatever order and with whatever other
/// rows among them, the pass goes on into the body with all six on record
/// and nothing gathered yet.
pub proof fn lemma_schema_gate(rows: Seq<Seq<Seq<char>>>)
    requires
        has_body(rows),
    ensures
        !declares_all(header_of(rows)) ==> parsed_rows(rows) == Err::<Seq<Pair>, ParseError>(
            ParseError::SchemaMismatch,
        ),
        declares_all(header_of(rows)) ==> Progress::start().run(rows.take(header_len(rows) + 1))
            == Ok::<Progress, ParseError>(entered(rows)) && entered(rows).schema.complete(),
{
    lemma_pass_gives_reading(rows);
    lemma_run_to_body(rows);
}

} // verus!
