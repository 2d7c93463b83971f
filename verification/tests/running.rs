//! Whole runs: loops, returns, exceptions and context managers.

use pyframe::bytecode::{CodeObject, Constant, Instruction, Location};
use pyframe::continuation::ExecutionResult;
use pyframe::frame::{BlockType, Frame};
use pyframe::object::{PyObject, PyObjectPayload, PyObjectRef};
use pyframe::request::{Method, Operand, Query, Reply, Request, Service};
use pyframe::run::{Suspended, Turn};
use pyframe::text::{decimal_text, frame_text};
use std::rc::Rc;

fn obj(id: usize) -> PyObjectRef {
    Rc::new(PyObject { id, payload: PyObjectPayload::Other })
}

/// A frame whose instruction at index `i` comes from row `i + 10`; label `l` lies at index `l`.
fn frame(instructions: Vec<Instruction>) -> Frame {
    let mut code = CodeObject::new();
    for i in 0..instructions.len() {
        code.locations.push(Location { row: i + 10, column: 1 });
        code.label_map.insert(i, i);
    }
    code.instructions = instructions;
    code.source_path = "dir/file.py".to_string();
    code.obj_name = "f".to_string();
    Frame::new(code, Rc::new(PyObject { id: 100, payload: PyObjectPayload::Scope }))
}

fn ids(values: &Vec<PyObjectRef>) -> Vec<usize> {
    values.iter().map(|value| value.id).collect()
}

fn asks(turn: Turn) -> (Request, Suspended) {
    match turn {
        Turn::Ask { request, suspended } => (request, suspended),
        other => panic!("{:?}", other),
    }
}

/// The manager that is told that its block is left, and the exception that it is told of.
fn exits(request: Request) -> (usize, Option<usize>) {
    match request {
        Request::CallMethod { obj, method: Method::Exit, args } => match (&args[0], &args[1], &args[2])
        {
            (Operand::NoneObject, Operand::NoneObject, Operand::NoneObject) => (obj.id, None),
            (Operand::TypeOf(typ), Operand::Object(exc), Operand::NoneObject) => {
                assert_eq!(typ.id, exc.id);
                (obj.id, Some(exc.id))
            }
            other => panic!("{:?}", other),
        },
        other => panic!("{:?}", other),
    }
}

/// Deals with the questions that come before an exception is handed out.
fn trace(frame: &mut Frame, turn: Turn, exc: usize, row: usize) -> Turn {
    let (request, suspended) = asks(turn);
    assert!(matches!(request, Request::Query(Query::IsInstance { obj, .. }) if obj.id == exc));
    let (request, suspended) = asks(frame.resume(suspended, Reply::Truth(true), 100));
    assert!(matches!(request, Request::Service(Service::GetTraceback { exc: e }) if e.id == exc));
    let (request, suspended) = asks(frame.resume(suspended, Reply::Value(obj(900)), 100));
    match request {
        Request::Service(Service::NewPosition { filename, row: r, name }) => {
            assert_eq!((filename.as_str(), r, name.as_str()), ("dir/file.py", row, "f"))
        }
        other => panic!("{:?}", other),
    }
    let (request, suspended) = asks(frame.resume(suspended, Reply::Value(obj(901)), 100));
    match request {
        Request::Service(Service::ListAppend { list, item }) => {
            assert_eq!((list.id, item.id), (900, 901))
        }
        other => panic!("{:?}", other),
    }
    frame.resume(suspended, Reply::Value(obj(902)), 100)
}

/// `LoadConst`, `Raise`: raises the object 50 in row 11 of a frame that starts with `setup`.
fn raise(frame: &mut Frame) -> Turn {
    let (_, suspended) = asks(frame.run(100));
    let (_, suspended) = asks(frame.resume(suspended, Reply::Value(obj(50)), 100));
    frame.resume(suspended, Reply::Truth(true), 100)
}

fn load() -> Instruction {
    Instruction::LoadConst { value: Constant::Integer { value: 1 } }
}

#[test]
fn return_a_constant() {
    let mut f = frame(vec![load(), Instruction::ReturnValue]);
    let (request, suspended) = asks(f.run(100));
    assert!(matches!(request, Request::Service(Service::Constant { .. })));
    assert_eq!(suspended.lineno.row, 10);
    let turn = f.resume(suspended, Reply::Value(obj(5)), 100);
    assert!(matches!(turn, Turn::Done(Ok(ExecutionResult::Return(value))) if value.id == 5));
}

#[test]
fn a_run_goes_on_after_a_yield() {
    let mut f = frame(vec![
        load(),
        Instruction::Duplicate,
        Instruction::YieldValue,
        Instruction::ReturnValue,
    ]);
    let (_, suspended) = asks(f.run(100));
    let turn = f.resume(suspended, Reply::Value(obj(5)), 100);
    assert!(matches!(turn, Turn::Done(Ok(ExecutionResult::Yield(value))) if value.id == 5));
    let turn = f.run(100);
    assert!(matches!(turn, Turn::Done(Ok(ExecutionResult::Return(value))) if value.id == 5));
}

#[test]
fn a_run_is_paused_and_goes_on() {
    let mut f = frame(vec![Instruction::Pass, Instruction::Jump { target: 0 }]);
    assert!(matches!(f.run(7), Turn::Paused));
    assert_eq!(f.lasti, 1);
    assert!(matches!(f.run(0), Turn::Paused));
    assert_eq!(f.lasti, 1);
    let mut g = frame(vec![Instruction::Pass, Instruction::Jump { target: 0 }]);
    assert!(matches!(g.run(4), Turn::Paused));
    assert!(matches!(g.run(3), Turn::Paused));
    assert_eq!(g.lasti, 1);
}

#[test]
fn a_faulty_run_is_stuck() {
    let mut f = frame(vec![Instruction::Pass, Instruction::Pop]);
    assert!(matches!(f.run(100), Turn::Stuck));
    assert_eq!(f.lasti, 1);
    let mut f = frame(vec![Instruction::Pass]);
    assert!(matches!(f.run(100), Turn::Stuck));
    assert_eq!(f.lasti, 1);
    let mut f = frame(vec![load()]);
    let (_, suspended) = asks(f.run(100));
    assert!(matches!(f.resume(suspended, Reply::Truth(true), 100), Turn::Stuck));
}

#[test]
fn what_is_raised_must_be_an_exception() {
    let mut f = frame(vec![load()]);
    let (_, suspended) = asks(f.run(100));
    let (_, suspended) = asks(f.resume(suspended, Reply::Failed(obj(50)), 100));
    assert!(matches!(f.resume(suspended, Reply::Truth(false), 100), Turn::Stuck));
}

#[test]
fn an_exception_escapes() {
    let mut f = frame(vec![Instruction::SetupLoop { start: 0, end: 0 }, load(), Instruction::Raise {
        argc: 1,
    }]);
    let turn = raise(&mut f);
    let turn = trace(&mut f, turn, 50, 12);
    assert!(matches!(turn, Turn::Done(Err(exc)) if exc.id == 50));
    assert!(f.blocks.is_empty());
}

#[test]
fn a_handler_takes_the_exception() {
    let mut f = frame(vec![
        Instruction::SetupExcept { handler: 4 },
        Instruction::SetupLoop { start: 0, end: 0 },
        load(),
        Instruction::Raise { argc: 1 },
        Instruction::ReturnValue,
    ]);
    f.push_value(obj(1));
    let turn = raise(&mut f);
    let turn = trace(&mut f, turn, 50, 13);
    assert!(matches!(turn, Turn::Done(Ok(ExecutionResult::Return(value))) if value.id == 50));
    assert_eq!(ids(&f.stack), vec![1]);
    assert!(f.blocks.is_empty());
}

#[test]
fn a_failed_request_is_an_exception() {
    let mut f = frame(vec![
        Instruction::SetupExcept { handler: 2 },
        load(),
        Instruction::ReturnValue,
    ]);
    let (_, suspended) = asks(f.run(100));
    let turn = f.resume(suspended, Reply::Failed(obj(60)), 100);
    let turn = trace(&mut f, turn, 60, 11);
    assert!(matches!(turn, Turn::Done(Ok(ExecutionResult::Return(value))) if value.id == 60));
}

/// A frame inside a handler and the blocks of the managers 70 and 71, the latter the inner one,
/// that raises the object 50.
fn managed() -> (Frame, Turn) {
    let mut f = frame(vec![
        load(),
        Instruction::Raise { argc: 1 },
        Instruction::ReturnValue,
        Instruction::Pass,
        Instruction::YieldValue,
    ]);
    f.push_value(obj(1));
    f.push_block(BlockType::TryExcept { handler: 2 });
    f.push_block(BlockType::With { end: 3, context_manager: obj(70) });
    f.push_value(obj(2));
    f.push_block(BlockType::With { end: 4, context_manager: obj(71) });
    let turn = raise(&mut f);
    let turn = trace(&mut f, turn, 50, 11);
    (f, turn)
}

#[test]
fn a_context_manager_deals_with_the_exception() {
    let (mut f, turn) = managed();
    let (request, suspended) = asks(turn);
    assert_eq!(exits(request), (71, Some(50)));
    let (request, suspended) = asks(f.resume(suspended, Reply::Value(obj(80)), 100));
    assert!(matches!(request, Request::Service(Service::BoolVal { obj }) if obj.id == 80));
    let turn = f.resume(suspended, Reply::Truth(true), 100);
    assert!(matches!(turn, Turn::Done(Ok(ExecutionResult::Yield(value))) if value.id == 2));
    assert_eq!(f.blocks.len(), 2);
}

#[test]
fn context_managers_that_do_not_deal_with_it_are_passed() {
    let (mut f, turn) = managed();
    let (_, suspended) = asks(turn);
    let (_, suspended) = asks(f.resume(suspended, Reply::Value(obj(80)), 100));
    let (request, suspended) = asks(f.resume(suspended, Reply::Truth(false), 100));
    assert_eq!(exits(request), (70, Some(50)));
    let (_, suspended) = asks(f.resume(suspended, Reply::Value(obj(81)), 100));
    let turn = f.resume(suspended, Reply::Truth(false), 100);
    assert!(matches!(turn, Turn::Done(Ok(ExecutionResult::Return(value))) if value.id == 50));
    assert_eq!(ids(&f.stack), vec![1]);
}

#[test]
fn a_context_manager_that_fails() {
    let (mut f, turn) = managed();
    let (_, suspended) = asks(turn);
    let turn = f.resume(suspended, Reply::Failed(obj(90)), 100);
    assert!(matches!(turn, Turn::Done(Err(exc)) if exc.id == 90));
    let (mut f, turn) = managed();
    let (_, suspended) = asks(turn);
    let (_, suspended) = asks(f.resume(suspended, Reply::Value(obj(80)), 100));
    let turn = f.resume(suspended, Reply::Failed(obj(91)), 100);
    assert!(matches!(turn, Turn::Done(Err(exc)) if exc.id == 91));
}

#[test]
fn with_statement() {
    let mut f = frame(vec![
        Instruction::SetupWith { end: 2 },
        Instruction::Duplicate,
        Instruction::CleanupWith { end: 2 },
        Instruction::ReturnValue,
    ]);
    f.push_value(obj(1));
    f.push_value(obj(70));
    let (request, suspended) = asks(f.run(100));
    assert!(
        matches!(request, Request::CallMethod { obj, method: Method::Enter, args } if obj.id == 70 && args.is_empty())
    );
    let (request, suspended) = asks(f.resume(suspended, Reply::Value(obj(71)), 100));
    assert_eq!(exits(request), (70, None));
    assert_eq!(ids(&f.stack), vec![1]);
    let turn = f.resume(suspended, Reply::Value(obj(72)), 100);
    assert!(matches!(turn, Turn::Done(Ok(ExecutionResult::Return(value))) if value.id == 1));
}

#[test]
fn cleanup_needs_its_own_block() {
    let mut f = frame(vec![Instruction::CleanupWith { end: 2 }]);
    assert!(!f.can_run());
    f.push_block(BlockType::With { end: 3, context_manager: obj(70) });
    assert!(!f.can_run());
    f.push_block(BlockType::With { end: 2, context_manager: obj(70) });
    assert!(f.can_run());
    f.push_block(BlockType::TryExcept { handler: 0 });
    assert!(!f.can_run());
}

#[test]
fn return_tells_the_managers() {
    let mut f = frame(vec![Instruction::ReturnValue]);
    f.push_block(BlockType::With { end: 0, context_manager: obj(70) });
    f.push_block(BlockType::TryExcept { handler: 0 });
    f.push_block(BlockType::With { end: 0, context_manager: obj(71) });
    f.push_block(BlockType::Loop { start: 0, end: 0 });
    f.push_value(obj(5));
    let (request, suspended) = asks(f.run(100));
    assert_eq!(exits(request), (71, None));
    assert_eq!(f.blocks.len(), 2);
    let (request, suspended) = asks(f.resume(suspended, Reply::Value(obj(80)), 100));
    assert_eq!(exits(request), (70, None));
    let turn = f.resume(suspended, Reply::Value(obj(80)), 100);
    assert!(matches!(turn, Turn::Done(Ok(ExecutionResult::Return(value))) if value.id == 5));
    assert!(f.blocks.is_empty());
}

#[test]
fn a_return_that_a_manager_spoils() {
    let mut f = frame(vec![Instruction::ReturnValue]);
    f.push_block(BlockType::With { end: 0, context_manager: obj(70) });
    f.push_value(obj(5));
    let (_, suspended) = asks(f.run(100));
    let turn = f.resume(suspended, Reply::Failed(obj(90)), 100);
    let turn = trace(&mut f, turn, 90, 10);
    assert!(matches!(turn, Turn::Done(Err(exc)) if exc.id == 90));
}

#[test]
fn break_and_continue() {
    for (instruction, place, blocks) in
        vec![(Instruction::Break, 3, 1), (Instruction::Continue, 2, 2)]
    {
        let mut f = frame(vec![instruction, Instruction::Pass, Instruction::Pass, Instruction::Pass]);
        f.push_value(obj(1));
        f.push_block(BlockType::TryExcept { handler: 0 });
        f.push_block(BlockType::Loop { start: 2, end: 3 });
        f.push_value(obj(2));
        f.push_block(BlockType::TryExcept { handler: 0 });
        f.push_value(obj(3));
        assert!(matches!(f.run(1), Turn::Paused));
        assert_eq!((f.lasti, f.blocks.len()), (place, blocks));
        assert_eq!(ids(&f.stack), if blocks == 1 { vec![1] } else { vec![1, 2] });
    }
}

#[test]
fn break_tells_the_managers() {
    let mut f = frame(vec![Instruction::Break, Instruction::Pass]);
    f.push_block(BlockType::With { end: 0, context_manager: obj(69) });
    f.push_block(BlockType::Loop { start: 0, end: 1 });
    f.push_block(BlockType::With { end: 0, context_manager: obj(70) });
    f.push_block(BlockType::With { end: 0, context_manager: obj(71) });
    f.push_block(BlockType::TryExcept { handler: 0 });
    let (request, suspended) = asks(f.run(100));
    assert_eq!(exits(request), (71, None));
    assert_eq!(f.blocks.len(), 4);
    let (request, suspended) = asks(f.resume(suspended, Reply::Value(obj(80)), 100));
    assert_eq!(exits(request), (70, None));
    assert_eq!(f.blocks.len(), 3);
    assert!(matches!(f.resume(suspended, Reply::Value(obj(80)), 0), Turn::Paused));
    assert_eq!((f.lasti, f.blocks.len()), (1, 1));
}

#[test]
fn break_puts_the_stack_back_to_the_level_of_the_loop() {
    let mut f = frame(vec![Instruction::Break, Instruction::Pass]);
    f.push_value(obj(1));
    f.push_value(obj(2));
    f.push_block(BlockType::Loop { start: 0, end: 1 });
    f.push_value(obj(3));
    f.push_block(BlockType::TryExcept { handler: 0 });
    f.push_value(obj(4));
    f.push_value(obj(5));
    assert!(matches!(f.run(1), Turn::Paused));
    assert_eq!(ids(&f.stack), vec![1, 2]);
    assert_eq!(f.lasti, 1);
}

#[test]
fn imports_look_from_the_same_directory_all_along() {
    let mut f = frame(vec![
        Instruction::Import { name: "a".to_string(), symbol: None },
        Instruction::Pop,
        Instruction::ImportStar { name: "b".to_string() },
    ]);
    let (request, suspended) = asks(f.run(100));
    assert!(matches!(request, Request::Service(Service::Import { path, .. }) if path == "dir"));
    let (request, _) = asks(f.resume(suspended, Reply::Value(obj(5)), 100));
    assert!(
        matches!(request, Request::Service(Service::ImportModule { path, .. }) if path == "dir")
    );
}

#[test]
fn imports_look_beside_the_source_that_the_frame_has_then() {
    let mut f = frame(vec![Instruction::Import { name: "a".to_string(), symbol: None }]);
    let mut code = (*f.code).clone();
    code.source_path = "elsewhere/other.py".to_string();
    f.code = Rc::new(code);
    let (request, _) = asks(f.run(100));
    assert!(
        matches!(request, Request::Service(Service::Import { path, .. }) if path == "elsewhere")
    );
}

#[test]
fn an_import_that_fails_is_raised() {
    let mut f = frame(vec![Instruction::ImportStar { name: "b".to_string() }]);
    f.push_value(obj(1));
    let (_, suspended) = asks(f.run(100));
    let turn = f.resume(suspended, Reply::Failed(obj(60)), 100);
    let turn = trace(&mut f, turn, 60, 10);
    assert!(matches!(turn, Turn::Done(Err(exc)) if exc.id == 60));
    assert_eq!(ids(&f.stack), vec![1]);
}

#[test]
fn code_and_scope_stay() {
    let mut f = frame(vec![
        Instruction::SetupExcept { handler: 3 },
        load(),
        Instruction::Raise { argc: 1 },
        Instruction::ReturnValue,
    ]);
    let code = f.code.clone();
    let turn = raise(&mut f);
    let turn = trace(&mut f, turn, 50, 12);
    assert!(matches!(turn, Turn::Done(Ok(ExecutionResult::Return(value))) if value.id == 50));
    assert!(Rc::ptr_eq(&f.code, &code));
    assert_eq!(f.locals.id, 100);
}

#[test]
fn instructions_leave_the_values_below_alone() {
    for (instruction, taken) in vec![
        (Instruction::StoreSubscript, 3),
        (Instruction::DeleteSubscript, 2),
        (Instruction::Rotate { amount: 3 }, 3),
        (Instruction::BuildMap { size: 2, unpack: false }, 4),
        (Instruction::BuildList { size: 1, unpack: true }, 1),
        (Instruction::GetIter, 1),
        (Instruction::Pass, 0),
    ] {
        let mut f = frame(vec![instruction]);
        for id in 1..7 {
            f.push_value(obj(id));
        }
        f.run(1);
        let below: Vec<usize> = (1..7 - taken).collect();
        assert_eq!(ids(&f.stack)[..below.len()], below[..]);
    }
}

#[test]
fn answers_are_of_the_kind_that_is_waited_for() {
    for (instruction, answer) in vec![
        (load(), Reply::Value(obj(1))),
        (Instruction::GetIter, Reply::Failed(obj(1))),
        (Instruction::JumpIf { target: 0 }, Reply::Truth(true)),
        (Instruction::ForIter { target: 0 }, Reply::Next(None)),
        (Instruction::Unpack, Reply::Elements(vec![])),
        (Instruction::StoreName { name: "x".to_string() }, Reply::Done),
        (Instruction::BuildString { size: 1 }, Reply::Text("t".to_string())),
    ] {
        let mut f = frame(vec![instruction]);
        f.push_value(obj(1));
        let (_, suspended) = asks(f.run(1));
        assert!(!matches!(f.resume(suspended, answer, 0), Turn::Stuck));
    }
}

#[test]
fn break_outside_a_loop() {
    let mut f = frame(vec![Instruction::Break]);
    assert!(!f.can_run());
    f.push_block(BlockType::TryExcept { handler: 0 });
    assert!(!f.can_run());
    f.push_block(BlockType::With { end: 0, context_manager: obj(70) });
    let (_, suspended) = asks(f.run(100));
    assert!(matches!(f.resume(suspended, Reply::Value(obj(80)), 100), Turn::Stuck));
}

#[test]
fn a_manager_must_not_fail_on_the_way_out_of_a_loop() {
    let mut f = frame(vec![Instruction::Break]);
    f.push_block(BlockType::Loop { start: 0, end: 0 });
    f.push_block(BlockType::With { end: 0, context_manager: obj(70) });
    let (_, suspended) = asks(f.run(100));
    assert!(matches!(f.resume(suspended, Reply::Failed(obj(80)), 100), Turn::Stuck));
}

#[test]
fn blocks_are_entered_and_left() {
    let mut f = frame(vec![
        Instruction::SetupLoop { start: 0, end: 0 },
        load(),
        Instruction::PopBlock,
        Instruction::PopBlock,
    ]);
    let (_, suspended) = asks(f.run(100));
    assert_eq!(f.blocks.len(), 1);
    assert!(matches!(f.resume(suspended, Reply::Value(obj(5)), 1), Turn::Paused));
    assert!(f.blocks.is_empty() && f.stack.is_empty());
    assert!(matches!(f.run(100), Turn::Stuck));
}

#[test]
fn numbers_in_messages() {
    assert_eq!(decimal_text(0), "0");
    assert_eq!(decimal_text(9), "9");
    assert_eq!(decimal_text(10), "10");
    assert_eq!(decimal_text(1234567890), "1234567890");
    assert_eq!(decimal_text(usize::MAX), usize::MAX.to_string());
}

#[test]
fn frame_as_text() {
    let text = frame_text(
        &vec!["a".to_string(), "b".to_string()],
        &vec!["block".to_string()],
        &vec![("x".to_string(), "1".to_string()), ("y".to_string(), "2".to_string())],
    );
    assert_eq!(
        text,
        "Frame Object { \n Stack:\n  > a\n  > b\n Blocks:\n  > block\n Locals:\n  x = 1\n  y = 2\n}"
    );
    assert_eq!(
        frame_text(&vec![], &vec![], &vec![]),
        "Frame Object { \n Stack:\n Blocks:\n Locals:\n}"
    );
}
