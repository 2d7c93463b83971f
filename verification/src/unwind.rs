//! How blocks are left.

use crate::continuation::{After, Continuation, ExecutionResult, LoopJump, Step};
use crate::frame::{Block, BlockType, Frame, FrameView};
use crate::model;
use crate::model::Halt;
use crate::object::PyObjectRef;
use crate::request::{Method, Operand, Request};
use vstd::prelude::*;

verus! {

/// Where leaving blocks comes to a halt, a block lies that brings it there, and none inside it
/// does.
pub proof fn lemma_innermost(blocks: Seq<Block>, halt: Halt)
    ensures
        -1 <= model::innermost(blocks, halt) < blocks.len(),
        model::innermost(blocks, halt) >= 0 ==> halt.at(blocks[model::innermost(blocks, halt)]),
        forall|j: int|
            model::innermost(blocks, halt) < j < blocks.len() ==> !halt.at(#[trigger] blocks[j]),
    decreases blocks.len(),
{
    if blocks.len() > 0 && !halt.at(blocks.last()) {
        lemma_innermost(blocks.drop_last(), halt);
        assert forall|j: int|
            model::innermost(blocks, halt) < j < blocks.len() implies !halt.at(
            #[trigger] blocks[j],
        ) by {
            if j < blocks.len() - 1 {
                assert(blocks.drop_last()[j] == blocks[j]);
            }
        }
    }
}

/// Leaving blocks keeps the outer ones as they are, and takes nothing but values from the top of
/// the stack.
pub proof fn lemma_pop_blocks_to(f: FrameView, count: int)
    requires
        0 <= count <= f.blocks.len(),
    ensures
        f.pop_blocks_to(count).blocks == f.blocks.take(count),
        f.pop_blocks_to(count).stack.is_prefix_of(f.stack),
        f.pop_blocks_to(count).code == f.code,
        f.pop_blocks_to(count).locals == f.locals,
        f.pop_blocks_to(count).lasti == f.lasti,
    decreases f.blocks.len(),
{
    if f.blocks.len() > count {
        lemma_pop_blocks_to(f.pop_block(), count);
        assert(f.blocks.drop_last().take(count) == f.blocks.take(count));
    } else {
        assert(f.blocks.take(count) == f.blocks);
    }
}

/// Leaving blocks in two parts is leaving them at once.
pub proof fn lemma_pop_blocks_twice(f: FrameView, first: int, second: int)
    requires
        second <= first,
    ensures
        f.pop_blocks_to(first).pop_blocks_to(second) == f.pop_blocks_to(second),
    decreases f.blocks.len(),
{
    if f.blocks.len() > 0 && f.blocks.len() > first {
        lemma_pop_blocks_twice(f.pop_block(), first, second);
    }
}

impl Halt {
    pub(crate) fn is_at(self, block: &Block) -> (halts: bool)
        ensures
            halts == self.at(*block),
    {
        match (self, &block.typ) {
            (Halt::Return, BlockType::With { .. }) => true,
            (Halt::Return, _) => false,
            (Halt::Jump, BlockType::TryExcept { .. }) => false,
            (Halt::Jump, _) => true,
            (Halt::Exception, BlockType::Loop { .. }) => false,
            (Halt::Exception, _) => true,
        }
    }
}

impl Frame {
    /// The index of the innermost one of the outer `count` blocks at which leaving blocks comes
    /// to a halt.
    pub(crate) fn innermost(&self, count: usize, halt: Halt) -> (index: Option<usize>)
        requires
            count <= self@.blocks.len(),
        ensures
            match index {
                Some(i) => i == model::innermost(self@.blocks.take(count as int), halt) && i
                    < count,
                None => model::innermost(self@.blocks.take(count as int), halt) == -1,
            },
    {
        let mut left: usize = count;
        while left > 0
            invariant
                left <= count <= self.blocks.len(),
                model::innermost(self@.blocks.take(count as int), halt) == model::innermost(
                    self@.blocks.take(left as int),
                    halt,
                ),
            decreases left,
        {
            proof {
                assert(self@.blocks.take(left as int).drop_last() == self@.blocks.take(left - 1));
            }
            if halt.is_at(&self.blocks[left - 1]) {
                return Some(left - 1);
            }
            left = left - 1;
        }
        None
    }

    /// Leaves all but the outermost `count` blocks.
    pub(crate) fn pop_blocks_to(&mut self, count: usize)
        requires
            count <= old(self)@.blocks.len(),
        ensures
            final(self)@ == old(self)@.pop_blocks_to(count as int),
    {
        while self.blocks.len() > count
            invariant
                count <= self@.blocks.len(),
                self@.pop_blocks_to(count as int) == old(self)@.pop_blocks_to(count as int),
            decreases self@.blocks.len(),
        {
            self.pop_block();
        }
    }

    /// Tells a context manager that its block is left, because of an exception or without one.
    pub fn with_exit(&self, context_manager: &PyObjectRef, exc: Option<PyObjectRef>) -> (request:
        Request)
        ensures
            request@ == model::exit_request(*context_manager, exc),
    {
        let args = match exc {
            Some(exc) => {
                let args = vec![
                    Operand::TypeOf(exc.clone()),
                    Operand::Object(exc.clone()),
                    Operand::NoneObject,
                ];
                assert(args@ == model::exit_args(Some(exc)));
                args
            },
            None => {
                let args = vec![Operand::NoneObject, Operand::NoneObject, Operand::NoneObject];
                assert(args@ == model::exit_args(None));
                args
            },
        };
        Request::CallMethod { obj: context_manager.clone(), method: Method::Exit, args }
    }

    /// Leaves all blocks on the way to returning `value`.
    pub fn unwind_blocks(&mut self, value: PyObjectRef) -> (step: Step)
        ensures
            (final(self)@, step@) == model::unwind_blocks(old(self)@, value),
    {
        proof {
            lemma_innermost(self@.blocks, Halt::Return);
            assert(self@.blocks.take(self@.blocks.len() as int) == self@.blocks);
        }
        match self.innermost(self.blocks.len(), Halt::Return) {
            None => {
                self.pop_blocks_to(0);
                Step::Finished(Ok(Some(ExecutionResult::Return(value))))
            },
            Some(i) => {
                let block = self.blocks[i].clone();
                self.pop_blocks_to(i);
                match block.typ {
                    BlockType::With { context_manager, .. } => Step::Ask {
                        request: self.with_exit(&context_manager, None),
                        resume: Continuation::After(After::ReturnExit { value }),
                    },
                    _ => vstd::pervasive::unreached(),
                }
            },
        }
    }

    /// Whether the blocks could be left up to the innermost loop or context manager if there were
    /// only the outer `count` blocks.
    pub(crate) fn can_unwind_from(&self, count: usize, jump: LoopJump) -> (can: bool)
        requires
            count <= self@.blocks.len(),
        ensures
            can == model::can_unwind_loop(
                FrameView { blocks: self@.blocks.take(count as int), ..self@ },
                jump,
            ),
    {
        proof {
            lemma_innermost(self@.blocks.take(count as int), Halt::Jump);
        }
        match self.innermost(count, Halt::Jump) {
            None => false,
            Some(i) => match (&self.blocks[i].typ, jump) {
                (BlockType::Loop { end, .. }, LoopJump::Break) => self.has_label(*end),
                (BlockType::Loop { start, .. }, LoopJump::Continue) => self.has_label(*start),
                _ => true,
            },
        }
    }

    /// Whether the blocks can be left up to the innermost loop or context manager.
    pub fn can_unwind_loop(&self, jump: LoopJump) -> (can: bool)
        ensures
            can == model::can_unwind_loop(self@, jump),
    {
        proof {
            assert(self@.blocks.take(self@.blocks.len() as int) == self@.blocks);
        }
        self.can_unwind_from(self.blocks.len(), jump)
    }

    /// Leaves the blocks inside the innermost loop and jumps out of its body.
    pub fn unwind_loop(&mut self, jump: LoopJump) -> (step: Step)
        requires
            model::can_unwind_loop(old(self)@, jump),
        ensures
            (final(self)@, step@) == model::unwind_loop(old(self)@, jump),
    {
        proof {
            lemma_innermost(self@.blocks, Halt::Jump);
            assert(self@.blocks.take(self@.blocks.len() as int) == self@.blocks);
        }
        match self.innermost(self.blocks.len(), Halt::Jump) {
            None => vstd::pervasive::unreached(),
            Some(i) => {
                proof {
                    assert(i < self.blocks.len());
                    lemma_pop_blocks_to(self@, i + 1);
                }
                let block = self.blocks[i].clone();
                self.pop_blocks_to(i + 1);
                match block.typ {
                    BlockType::With { context_manager, .. } => Step::Ask {
                        request: self.with_exit(&context_manager, None),
                        resume: Continuation::After(After::LoopExit { jump }),
                    },
                    BlockType::Loop { start, end } => {
                        match jump {
                            LoopJump::Break => {
                                self.pop_block();
                                self.jump(end);
                            },
                            LoopJump::Continue => {
                                self.jump(start);
                            },
                        }
                        Step::Finished(Ok(None))
                    },
                    _ => vstd::pervasive::unreached(),
                }
            },
        }
    }
}

} // verus!
