//! The grouping of stack frames into call stacks.
//!
//! The frames of a stack follow one another in the log, the innermost
//! first, each with its depth. A frame of depth 1 begins a stack; the stack
//! before it is complete at that moment. A stack without frames is never
//! recorded.

use vstd::prelude::*;
use crate::event::Stack;

verus! {

/// The model of the accumulator: the stacks that are complete, in the order
/// in which they were completed, and the frames of the stack that is open.
pub struct Stacks {
    pub completed: Seq<Seq<Seq<char>>>,
    pub active: Seq<Seq<char>>,
}

/// One frame as a row of the log gives it: its depth and its symbol.
pub struct Frame {
    pub depth: u64,
    pub symbol: Seq<char>,
}

impl Stacks {
    /// No stack complete and none open.
    pub open spec fn empty() -> Stacks {
        Stacks { completed: Seq::empty(), active: Seq::empty() }
    }

    /// The complete stacks, the open one counted as the last of them if it
    /// holds a frame.
    pub open spec fn sealed(self) -> Seq<Seq<Seq<char>>> {
        if self.active.len() > 0 {
            self.completed.push(self.active)
        } else {
            self.completed
        }
    }

    /// The stacks after one more frame. A frame of depth 1 completes the
    /// open stack and opens a new one that holds this frame alone; a frame
    /// of any other depth joins the open stack.
    pub open spec fn push_frame(self, depth: u64, symbol: Seq<char>) -> Stacks {
        if depth == 1 {
            Stacks { completed: self.sealed(), active: seq![symbol] }
        } else {
            Stacks { completed: self.completed, active: self.active.push(symbol) }
        }
    }

    /// The stacks after a run of frames.
    pub open spec fn push_frames(self, frames: Seq<Frame>) -> Stacks
        decreases frames.len(),
    {
        if frames.len() == 0 {
            self
        } else {
            let last = frames.last();
            self.push_frames(frames.drop_last()).push_frame(last.depth, last.symbol)
        }
    }

    /// Whether every complete stack holds a frame.
    pub open spec fn well_formed(self) -> bool {
        forall|i: int| 0 <= i < self.completed.len() ==> (#[trigger] self.completed[i]).len() > 0
    }

    /// The symbols of all frames, those of the complete stacks first, stack
    /// by stack, then those of the open one.
    pub open spec fn symbols(self) -> Seq<Seq<char>> {
        self.completed.flatten() + self.active
    }
}

/// The symbols of a run of frames.
pub open spec fn symbols_of(frames: Seq<Frame>) -> Seq<Seq<char>> {
    frames.map_values(|frame: Frame| frame.symbol)
}

/// How many frames of a run begin a stack: those of depth 1, and the first
/// frame of all, whatever its depth.
pub open spec fn count_starts(frames: Seq<Frame>) -> nat
    decreases frames.len(),
{
    if frames.len() == 0 {
        0
    } else {
        let before = count_starts(frames.drop_last());
        if frames.last().depth == 1 || frames.len() == 1 {
            before + 1
        } else {
            before
        }
    }
}

/// A frame of depth 1 always begins a new stack, which holds that frame
/// alone. The stack that was open before it, if it held a frame, becomes
/// the last of the complete stacks; the stacks that were complete before
/// stay as they were and where they were.
pub proof fn lemma_depth_one_begins_stack(stacks: Stacks, symbol: Seq<char>)
    ensures
        stacks.push_frame(1, symbol).active == seq![symbol],
        stacks.active.len() > 0 ==> stacks.push_frame(1, symbol).completed
            == stacks.completed.push(stacks.active),
        stacks.active.len() == 0 ==> stacks.push_frame(1, symbol).completed == stacks.completed,
{
}

/// A frame of another depth than 1 joins the open stack at its end and
/// completes nothing.
pub proof fn lemma_deeper_frame_joins_stack(stacks: Stacks, depth: u64, symbol: Seq<char>)
    requires
        depth != 1,
    ensures
        stacks.push_frame(depth, symbol).active == stacks.active.push(symbol),
        stacks.push_frame(depth, symbol).completed == stacks.completed,
{
}

/// Whatever frames arrive, no frame is lost, none is recorded twice and
/// none changes its place: the symbols of the stacks, read stack by stack,
/// are the symbols that were there before followed by those of the frames
/// in the order of their arrival. The stacks that were complete stay as
/// they were, at the front of the complete ones, and no complete stack is
/// without frames.
pub proof fn lemma_frames_are_kept(stacks: Stacks, frames: Seq<Frame>)
    requires
        stacks.well_formed(),
    ensures
        stacks.push_frames(frames).well_formed(),
        stacks.push_frames(frames).symbols() == stacks.symbols() + symbols_of(frames),
        stacks.completed.is_prefix_of(stacks.push_frames(frames).completed),
    decreases frames.len(),
{
    if frames.len() > 0 {
        let init = frames.drop_last();
        let last = frames.last();
        let before = stacks.push_frames(init);
        let after = before.push_frame(last.depth, last.symbol);
        lemma_frames_are_kept(stacks, init);
        if last.depth == 1 && before.active.len() > 0 {
            before.completed.lemma_flatten_push(before.active);
        }
        assert(after.symbols() =~= before.symbols().push(last.symbol));
    }
}

/// As many stacks are recorded as frames began one.
pub proof fn lemma_one_stack_per_start(frames: Seq<Frame>)
    ensures
        Stacks::empty().push_frames(frames).sealed().len() == count_starts(frames),
        frames.len() > 0 ==> Stacks::empty().push_frames(frames).active.len() > 0,
    decreases frames.len(),
{
    if frames.len() > 0 {
        lemma_one_stack_per_start(frames.drop_last());
    }
}

/// The views of a vector of stacks.
pub open spec fn stack_views(stacks: Seq<Stack>) -> Seq<Seq<Seq<char>>> {
    stacks.map_values(|stack: Stack| stack@)
}

/// Groups the frames of a log into call stacks.
pub struct StackAccumulator {
    completed: Vec<Stack>,
    active: Vec<String>,
}

impl View for StackAccumulator {
    type V = Stacks;

    closed spec fn view(&self) -> Stacks {
        Stacks {
            completed: stack_views(self.completed@),
            active: self.active@.map_values(|symbol: String| symbol@),
        }
    }
}

impl StackAccumulator {
    /// An accumulator that has seen no frame.
    pub fn new() -> (acc: StackAccumulator)
        ensures
            acc@ == Stacks::empty(),
    {
        let acc = StackAccumulator { completed: Vec::new(), active: Vec::new() };
        assert(acc@.completed =~= Seq::empty());
        assert(acc@.active =~= Seq::empty());
        acc
    }

    /// Takes one frame. One of depth 1 completes the open stack, which is
    /// moved to the complete ones if it holds a frame, and begins a new
    /// stack; one of any other depth joins the open stack.
    pub fn push_frame(&mut self, depth: u64, symbol: String)
        ensures
            final(self)@ == old(self)@.push_frame(depth, symbol@),
    {
        if depth == 1 {
            let mut done: Vec<String> = Vec::new();
            std::mem::swap(&mut self.active, &mut done);
            if done.len() > 0 {
                let stack = Stack(done);
                assert(stack_views(self.completed@.push(stack)) =~= stack_views(
                    self.completed@,
                ).push(stack@));
                self.completed.push(stack);
            }
        }
        let ghost open = self@.active;
        assert(self.active@.push(symbol).map_values(|symbol: String| symbol@) =~= open.push(
            symbol@,
        ));
        self.active.push(symbol);
        assert(depth == 1 ==> self@.active =~= seq![symbol@]);
    }

    /// The complete stacks in the order in which they were completed, the
    /// open one as the last of them if it holds a frame.
    pub fn finish(self) -> (stacks: Vec<Stack>)
        ensures
            stack_views(stacks@) == self@.sealed(),
    {
        let mut stacks = self.completed;
        if self.active.len() > 0 {
            let stack = Stack(self.active);
            stacks.push(stack);
        }
        stacks
    }
}

} // verus!
