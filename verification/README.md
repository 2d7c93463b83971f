# pyframe

The frames of a Python virtual machine: the stack of values, the stack of blocks, and what each
bytecode instruction does to them. The library is written in Verus. Every function of it is
verified against its contract, but for `text::parent_directory`, which calls `PathBuf::pop` of the
standard library and whose contract is trusted. So is what `src/object.rs` says of `BigInt` of the
crate `num-bigint`: the type is taken as it is, and `clone` is trusted to give the same integer.

A frame does not own the objects that it handles. Where an instruction needs an object made, read,
changed or called, the frame hands out a request, and goes on when the reply is there. So running a
frame is a conversation, and the contracts say exactly what is asked and what each reply leads to.

- `src/bytecode.rs`, `src/object.rs`: code objects, instructions, and what a frame sees of objects
- `src/frame.rs`: the frame, its stacks and its place in the code
- `src/request.rs`, `src/continuation.rs`: requests, replies, and what a frame does with a reply
- `src/model.rs`: what each instruction means
- `src/execute.rs`, `src/collect.rs`, `src/unwind.rs`, `src/resume.rs`: the instructions
- `src/run.rs`: the run loop and the dealing with exceptions
- `src/text.rs`: messages, the directory of a source file, and a frame as text
- `src/laws.rs`, `src/conversation.rs`, `src/leaving.rs`: what holds of every frame, of whole
  conversations, and of leaving blocks
- `app/`: drives a frame on a virtual machine
