//! A frame: the stack of values, the stack of blocks and the place in the code.

use crate::bytecode::{CodeObject, Instruction, Label, Location};
use crate::object::PyObjectRef;
use std::rc::Rc;
use vstd::prelude::*;

verus! {

/// A block that execution is in.
#[derive(Debug)]
pub struct Block {
    /// The type of block.
    pub typ: BlockType,
    /// The level of the value stack when the block was entered.
    pub level: usize,
}

#[derive(Debug)]
pub enum BlockType {
    Loop { start: Label, end: Label },
    TryExcept { handler: Label },
    With { end: Label, context_manager: PyObjectRef },
}

impl Clone for BlockType {
    fn clone(&self) -> (copy: BlockType)
        ensures
            copy == *self,
    {
        match self {
            BlockType::Loop { start, end } => BlockType::Loop { start: *start, end: *end },
            BlockType::TryExcept { handler } => BlockType::TryExcept { handler: *handler },
            BlockType::With { end, context_manager } => BlockType::With {
                end: *end,
                context_manager: context_manager.clone(),
            },
        }
    }
}

impl Clone for Block {
    fn clone(&self) -> (copy: Block)
        ensures
            copy == *self,
    {
        Block { typ: self.typ.clone(), level: self.level }
    }
}

/// The state of one activation of a code object.
pub struct Frame {
    pub code: Rc<CodeObject>,
    /// The main data frame of the stack machine.
    pub stack: Vec<PyObjectRef>,
    /// Block frames, for controlling loops and exceptions.
    pub blocks: Vec<Block>,
    /// Variables.
    pub locals: PyObjectRef,
    /// Index of the next instruction.
    pub lasti: usize,
}

/// A `Frame` as contracts see it.
#[verifier::ext_equal]
pub struct FrameView {
    pub code: CodeObject,
    pub stack: Seq<PyObjectRef>,
    pub blocks: Seq<Block>,
    pub locals: PyObjectRef,
    pub lasti: int,
}

impl View for Frame {
    type V = FrameView;

    open spec fn view(&self) -> FrameView {
        FrameView {
            code: *self.code,
            stack: self.stack@,
            blocks: self.blocks@,
            locals: self.locals,
            lasti: self.lasti as int,
        }
    }
}

/// What is left of a stack that is cut down to a level; one that is lower stays as it is.
pub open spec fn cut(stack: Seq<PyObjectRef>, level: usize) -> Seq<PyObjectRef> {
    if level <= stack.len() {
        stack.take(level as int)
    } else {
        stack
    }
}

impl FrameView {
    pub open spec fn push(self, value: PyObjectRef) -> FrameView {
        FrameView { stack: self.stack.push(value), ..self }
    }

    /// The values end up on top of the stack with the first of them topmost.
    pub open spec fn push_reversed(self, values: Seq<PyObjectRef>) -> FrameView {
        FrameView { stack: self.stack + values.reverse(), ..self }
    }

    /// The value that lies `depth` values below the top.
    pub open spec fn nth(self, depth: int) -> PyObjectRef {
        self.stack[self.stack.len() - 1 - depth]
    }

    pub open spec fn top(self) -> PyObjectRef {
        self.nth(0)
    }

    /// The topmost `count` values, the lowest of them first.
    pub open spec fn top_values(self, count: int) -> Seq<PyObjectRef> {
        self.stack.skip(self.stack.len() - count)
    }

    /// Without the topmost `count` values.
    pub open spec fn drop(self, count: int) -> FrameView {
        FrameView { stack: self.stack.take(self.stack.len() - count), ..self }
    }

    pub open spec fn has_label(self, label: Label) -> bool {
        self.code.label_map@.contains_key(label)
    }

    pub open spec fn jump(self, label: Label) -> FrameView {
        FrameView { lasti: self.code.label_map@[label] as int, ..self }
    }

    pub open spec fn push_block(self, typ: BlockType) -> FrameView {
        FrameView {
            blocks: self.blocks.push(Block { typ, level: self.stack.len() as usize }),
            ..self
        }
    }

    /// Without the innermost block and the values that were pushed since it was entered.
    pub open spec fn pop_block(self) -> FrameView {
        FrameView {
            blocks: self.blocks.drop_last(),
            stack: cut(self.stack, self.blocks.last().level),
            ..self
        }
    }

    /// Without all but the outermost `count` blocks.
    pub open spec fn pop_blocks_to(self, count: int) -> FrameView
        decreases self.blocks.len(),
    {
        if self.blocks.len() == 0 || self.blocks.len() <= count {
            self
        } else {
            self.pop_block().pop_blocks_to(count)
        }
    }

    /// Behind the instruction that comes next.
    pub open spec fn fetched(self) -> FrameView {
        FrameView { lasti: self.lasti + 1, ..self }
    }
}

impl Frame {
    /// A frame at the start of `code`, whose names live in the scope `globals`.
    pub fn new(code: CodeObject, globals: PyObjectRef) -> (frame: Frame)
        ensures
            *frame.code == code,
            frame.stack@ == Seq::<PyObjectRef>::empty(),
            frame.blocks@ == Seq::<Block>::empty(),
            frame.locals == globals,
            frame.lasti == 0,
    {
        Frame {
            code: Rc::new(code),
            stack: Vec::new(),
            blocks: Vec::new(),
            locals: globals,
            lasti: 0,
        }
    }

    /// The next instruction; the frame moves on to the one behind it.
    pub fn fetch_instruction(&mut self) -> (instruction: &Instruction)
        requires
            old(self).lasti < old(self).code.instructions.len(),
        ensures
            *instruction == old(self).code.instructions[old(self).lasti as int],
            final(self)@ == old(self)@.fetched(),
    {
        let index: usize = self.lasti;
        self.lasti = self.lasti + 1;
        &self.code.instructions[index]
    }

    /// Where the next instruction came from.
    pub fn get_lineno(&self) -> (location: Location)
        requires
            self.lasti < self.code.locations.len(),
        ensures
            location == self.code.locations[self.lasti as int],
    {
        self.code.locations[self.lasti]
    }

    /// Whether `label` is one of the code.
    pub fn has_label(&self, label: Label) -> (known: bool)
        ensures
            known == self@.has_label(label),
    {
        self.code.label_map.contains_key(&label)
    }

    /// Makes the instruction at `label` the next one.
    pub fn jump(&mut self, label: Label)
        requires
            old(self)@.has_label(label),
        ensures
            final(self)@ == old(self)@.jump(label),
    {
        let target = self.code.label_map.get(&label);
        if let Some(target_pc) = target {
            self.lasti = *target_pc;
        }
    }

    /// Enters a block.
    pub fn push_block(&mut self, typ: BlockType)
        ensures
            final(self)@ == old(self)@.push_block(typ),
    {
        let level: usize = self.stack.len();
        self.blocks.push(Block { typ, level });
    }

    /// Leaves the innermost block, and drops the values that were pushed since it was entered.
    pub fn pop_block(&mut self) -> (block: Option<Block>)
        ensures
            old(self)@.blocks.len() == 0 ==> block is None && final(self)@ == old(self)@,
            old(self)@.blocks.len() > 0 ==> block == Some(old(self)@.blocks.last())
                && final(self)@ == old(self)@.pop_block(),
    {
        match self.blocks.pop() {
            Some(block) => {
                self.stack.truncate(block.level);
                Some(block)
            },
            None => None,
        }
    }

    /// The innermost block.
    pub fn current_block(&self) -> (block: Option<Block>)
        ensures
            block == (if self@.blocks.len() == 0 {
                None
            } else {
                Some(self@.blocks.last())
            }),
    {
        if self.blocks.len() == 0 {
            None
        } else {
            Some(self.blocks[self.blocks.len() - 1].clone())
        }
    }

    pub fn push_value(&mut self, obj: PyObjectRef)
        ensures
            final(self)@ == old(self)@.push(obj),
    {
        self.stack.push(obj);
    }

    pub fn pop_value(&mut self) -> (value: PyObjectRef)
        requires
            old(self)@.stack.len() >= 1,
        ensures
            value == old(self)@.top(),
            final(self)@ == old(self)@.drop(1),
    {
        match self.stack.pop() {
            Some(value) => value,
            None => vstd::pervasive::unreached(),
        }
    }

    /// Takes `count` values off the stack; the one that was pushed first comes first.
    pub fn pop_multiple(&mut self, count: usize) -> (values: Vec<PyObjectRef>)
        requires
            old(self)@.stack.len() >= count,
        ensures
            values@ == old(self)@.top_values(count as int),
            final(self)@ == old(self)@.drop(count as int),
    {
        let start: usize = self.stack.len() - count;
        self.stack.split_off(start)
    }

    /// The value on top of the stack, which stays there.
    pub fn last_value(&self) -> (value: PyObjectRef)
        requires
            self@.stack.len() >= 1,
        ensures
            value == self@.top(),
    {
        self.stack[self.stack.len() - 1].clone()
    }

    /// The value that lies `depth` values below the top, which stays there.
    pub fn nth_value(&self, depth: usize) -> (value: PyObjectRef)
        requires
            self@.stack.len() > depth,
        ensures
            value == self@.nth(depth as int),
    {
        self.stack[self.stack.len() - depth - 1].clone()
    }

    /// Pushes values from the last to the first.
    pub(crate) fn push_reversed(&mut self, values: Vec<PyObjectRef>)
        ensures
            final(self)@ == old(self)@.push_reversed(values@),
    {
        let mut values = values;
        let ghost all = values@;
        while values.len() > 0
            invariant
                values@.len() <= all.len(),
                values@ == all.take(values@.len() as int),
                self@ == old(self)@.push_reversed(all.skip(values@.len() as int)),
            decreases values@.len(),
        {
            let ghost before = values@;
            match values.pop() {
                Some(value) => {
                    self.push_value(value);
                },
                None => {},
            }
            proof {
                assert(all.skip(before.len() - 1).reverse() == all.skip(
                    before.len() as int,
                ).reverse().push(before.last()));
            }
        }
        proof {
            assert(all.skip(0) == all);
        }
    }
}

} // verus!
