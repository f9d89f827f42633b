//! The joining of events and call stacks by position.
//!
//! Events and stacks are gathered separately from the same rows. The event
//! at a given place belongs with the stack at the same place, so the two
//! lists have to be equally long; where they are not, nothing is joined.

use vstd::prelude::*;
use crate::event::{HeapAction, ParseError, Stack};
use crate::stacks::stack_views;

verus! {

/// The model of an event with its call stack.
pub type Pair = (HeapAction, Seq<Seq<char>>);

/// The models of a vector of events with their stacks.
pub open spec fn pair_views(pairs: Seq<(HeapAction, Stack)>) -> Seq<Pair> {
    pairs.map_values(|pair: (HeapAction, Stack)| (pair.0, pair.1@))
}

/// Each event with the stack at the same place, as far as the events go.
pub open spec fn joined(events: Seq<HeapAction>, stacks: Seq<Seq<Seq<char>>>) -> Seq<Pair>
    recommends
        events.len() == stacks.len(),
{
    Seq::new(events.len(), |i: int| (events[i], stacks[i]))
}

/// The events joined with the stacks where there are as many of the one as
/// of the other, and the error where there are not.
pub open spec fn paired(events: Seq<HeapAction>, stacks: Seq<Seq<Seq<char>>>) -> Result<
    Seq<Pair>,
    ParseError,
> {
    if events.len() == stacks.len() {
        Ok(joined(events, stacks))
    } else {
        Err(ParseError::CountMismatch)
    }
}

/// Events and stacks are joined exactly where they are equally many. Then
/// there are as many pairs as events and as stacks, and the pair at each
/// place holds the event and the stack at that place: nothing is left out,
/// moved or repeated.
pub proof fn lemma_pairs_keep_place(events: Seq<HeapAction>, stacks: Seq<Seq<Seq<char>>>)
    ensures
        paired(events, stacks) is Ok <==> events.len() == stacks.len(),
        paired(events, stacks) is Err ==> paired(events, stacks) == Err::<Seq<Pair>, ParseError>(
            ParseError::CountMismatch,
        ),
        paired(events, stacks) matches Ok(pairs) ==> {
            &&& pairs.len() == events.len()
            &&& pairs.len() == stacks.len()
            &&& forall|i: int|
                0 <= i < pairs.len() ==> (#[trigger] pairs[i]).0 == events[i] && pairs[i].1
                    == stacks[i]
        },
{
}

/// Joins each event with the stack at the same place, or fails where there
/// are not as many stacks as events.
pub fn pair(events: Vec<HeapAction>, stacks: Vec<Stack>) -> (r: Result<
    Vec<(HeapAction, Stack)>,
    ParseError,
>)
    ensures
        match r {
            Ok(pairs) => paired(events@, stack_views(stacks@)) == Ok::<Seq<Pair>, ParseError>(
                pair_views(pairs@),
            ),
            Err(e) => paired(events@, stack_views(stacks@)) == Err::<Seq<Pair>, ParseError>(e),
        },
{
    if events.len() != stacks.len() {
        return Err(ParseError::CountMismatch);
    }
    let ghost all = stacks@;
    let mut pairs: Vec<(HeapAction, Stack)> = Vec::new();
    let mut i: usize = 0;
    for stack in it: stacks
        invariant
            it.seq() == all,
            events.len() == all.len(),
            i == it.index(),
            pairs.len() == i,
            forall|k: int|
                0 <= k < i ==> (#[trigger] pairs@[k]).0 == events@[k] && pairs@[k].1 == all[k],
    {
        pairs.push((events[i], stack));
        i += 1;
    }
    assert(pair_views(pairs@) =~= joined(events@, stack_views(all)));
    Ok(pairs)
}

} // verus!
