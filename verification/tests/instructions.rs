//! What single instructions ask for and come to.

use num_bigint::BigInt;
use pyframe::bytecode::{
    BinaryOperator, CallType, CodeObject, ComparisonOperator, Constant, ConversionFlag,
    FunctionOpArg, Instruction, Location, UnaryOperator,
};
use pyframe::continuation::{Continuation, ExecutionResult, Step};
use pyframe::frame::{BlockType, Frame};
use pyframe::object::{PyObject, PyObjectPayload, PyObjectRef};
use pyframe::request::{
    Class, ExceptionClass, Method, Operand, Operator, Query, Reply, Request, Service,
};
use std::rc::Rc;

fn obj(id: usize) -> PyObjectRef {
    Rc::new(PyObject { id, payload: PyObjectPayload::Other })
}

fn integer(id: usize, value: i64) -> PyObjectRef {
    Rc::new(PyObject { id, payload: PyObjectPayload::Integer { value: BigInt::from(value) } })
}

fn none(id: usize) -> PyObjectRef {
    Rc::new(PyObject { id, payload: PyObjectPayload::NoneValue })
}

/// A frame with one instruction and the objects 1, 2, ... on the stack; its scope is object 100
/// and label 7 lies at index 3.
fn frame(instruction: Instruction, values: usize) -> Frame {
    let mut code = CodeObject::new();
    code.instructions.push(instruction);
    code.locations.push(Location { row: 1, column: 1 });
    code.label_map.insert(7, 3);
    code.source_path = "lib/thing.py".to_string();
    code.obj_name = "main".to_string();
    let scope = Rc::new(PyObject { id: 100, payload: PyObjectPayload::Scope });
    let mut frame = Frame::new(code, scope);
    for id in 1..values + 1 {
        frame.push_value(obj(id));
    }
    frame
}

fn ids(values: &Vec<PyObjectRef>) -> Vec<usize> {
    values.iter().map(|value| value.id).collect()
}

fn args(operands: &Vec<Operand>) -> Vec<String> {
    operands
        .iter()
        .map(|operand| match operand {
            Operand::Object(value) => format!("{}", value.id),
            Operand::TypeOf(value) => format!("type of {}", value.id),
            Operand::NoneObject => "None".to_string(),
            Operand::Str(text) => format!("'{}'", text),
        })
        .collect()
}

fn start(frame: &mut Frame) -> Step {
    assert!(frame.can_run());
    frame.execute_instruction()
}

fn ask(step: Step) -> (Request, Continuation) {
    match step {
        Step::Ask { request, resume } => (request, resume),
        other => panic!("finished with {:?}", other),
    }
}

fn service(step: Step) -> (Service, Continuation) {
    match ask(step) {
        (Request::Service(service), resume) => (service, resume),
        other => panic!("asked for {:?}", other),
    }
}

fn query(step: Step) -> (Query, Continuation) {
    match ask(step) {
        (Request::Query(query), resume) => (query, resume),
        other => panic!("asked for {:?}", other),
    }
}

fn method(step: Step) -> (usize, Method, Vec<String>, Continuation) {
    match ask(step) {
        (Request::CallMethod { obj, method, args: operands }, resume) => {
            (obj.id, method, args(&operands), resume)
        }
        other => panic!("asked for {:?}", other),
    }
}

fn goes_on(step: Step) -> bool {
    matches!(step, Step::Finished(Ok(None)))
}

fn reply(frame: &mut Frame, resume: Continuation, reply: Reply) -> Step {
    assert!(frame.can_resume(&resume, &reply));
    frame.resume_instruction(resume, reply)
}

#[test]
fn new_code_object_is_empty() {
    let code = CodeObject::new();
    assert!(code.instructions.is_empty());
    assert!(code.label_map.is_empty());
    assert!(code.locations.is_empty());
    assert_eq!(code.source_path, "");
    assert_eq!(code.obj_name, "");
}

#[test]
fn new_frame_starts_at_the_beginning() {
    let frame = frame(Instruction::Pass, 0);
    assert_eq!(frame.lasti, 0);
    assert!(frame.stack.is_empty());
    assert!(frame.blocks.is_empty());
    assert_eq!(frame.locals.id, 100);
}

#[test]
fn directory_is_what_stands_before_the_file() {
    for (path, directory) in vec![
        ("script.py", ""),
        ("a/b/c.py", "a/b"),
        ("pkg/mod", "pkg"),
        ("/home/me/site-3.11/mod.py", "/home/me/site-3.11"),
        ("/mod.py", "/"),
        ("two words/mod.tar.gz", "two words"),
        ("", ""),
    ] {
        assert_eq!(directory_from(path), directory);
    }
}

/// Where an import looks from in a frame whose source file is `path`.
fn directory_from(path: &str) -> String {
    let mut code = CodeObject::new();
    code.instructions.push(Instruction::ImportStar { name: "m".to_string() });
    code.locations.push(Location { row: 1, column: 1 });
    code.source_path = path.to_string();
    let mut frame = Frame::new(code, obj(1));
    match service(start(&mut frame)).0 {
        Service::ImportModule { path, .. } => path,
        other => panic!("asked for {:?}", other),
    }
}

#[test]
fn directory_of_a_path_with_dots() {
    assert_eq!(directory_from("./a.py"), ".");
    assert_eq!(directory_from("../a.py"), "..");
    assert_eq!(directory_from("lib/.x/a.py"), "lib/.x");
    assert_eq!(directory_from("/home/u/.local/a.py"), "/home/u/.local");
    assert_eq!(directory_from("./lib/a.py"), "./lib");
    assert_eq!(directory_from("a/../b.py"), "a/..");
    assert_eq!(directory_from("/../b.py"), "/..");
    assert_eq!(directory_from("lib/.hidden"), "lib");
    assert_eq!(directory_from("lib/.."), "lib");
    assert_eq!(directory_from(".hidden"), "");
    assert_eq!(directory_from(".."), "");
    assert_eq!(directory_from("..."), "");
}

#[test]
fn directory_of_a_path_with_colons() {
    assert_eq!(directory_from("pkg/v:1/mod.py"), "pkg/v:1");
    assert_eq!(directory_from("a/b:c"), "a");
    assert_eq!(directory_from("mod.py:stream"), "");
    assert_eq!(directory_from("/pkg:2/mod.py"), "/pkg:2");
}

#[test]
fn directory_of_a_path_with_empty_pieces() {
    assert_eq!(directory_from("a//b.py"), "a");
    assert_eq!(directory_from("a/./b.py"), "a");
    assert_eq!(directory_from("a/b/"), "a");
    assert_eq!(directory_from("a/b/."), "a");
    assert_eq!(directory_from("./."), "");
    assert_eq!(directory_from("/a//"), "/");
    assert_eq!(directory_from("."), "");
    assert_eq!(directory_from("./"), "");
    assert_eq!(directory_from("/"), "/");
    assert_eq!(directory_from("/."), "/.");
}

#[test]
fn fetch_moves_on() {
    let mut frame = frame(Instruction::Rotate { amount: 2 }, 0);
    assert!(matches!(frame.fetch_instruction(), Instruction::Rotate { amount: 2 }));
    assert_eq!(frame.lasti, 1);
}

#[test]
fn lineno_is_that_of_the_next_instruction() {
    assert_eq!(frame(Instruction::Pass, 0).get_lineno(), Location { row: 1, column: 1 });
}

#[test]
fn push_and_pop() {
    let mut frame = frame(Instruction::Pass, 2);
    frame.push_value(obj(9));
    assert_eq!(frame.last_value().id, 9);
    assert_eq!(frame.nth_value(2).id, 1);
    assert_eq!(frame.pop_value().id, 9);
    assert_eq!(ids(&frame.stack), vec![1, 2]);
}

#[test]
fn pop_multiple_keeps_order() {
    let mut frame = frame(Instruction::Pass, 4);
    assert_eq!(ids(&frame.pop_multiple(3)), vec![2, 3, 4]);
    assert_eq!(ids(&frame.stack), vec![1]);
    assert_eq!(ids(&frame.pop_multiple(0)), Vec::<usize>::new());
}

#[test]
fn blocks_cut_the_stack() {
    let mut frame = frame(Instruction::Pass, 2);
    assert!(frame.current_block().is_none());
    assert!(frame.pop_block().is_none());
    frame.push_block(BlockType::TryExcept { handler: 7 });
    frame.push_value(obj(3));
    frame.push_value(obj(4));
    assert_eq!(frame.current_block().unwrap().level, 2);
    assert_eq!(frame.pop_block().unwrap().level, 2);
    assert_eq!(ids(&frame.stack), vec![1, 2]);
    frame.push_block(BlockType::TryExcept { handler: 7 });
    frame.pop_value();
    frame.pop_block();
    assert_eq!(ids(&frame.stack), vec![1]);
}

#[test]
fn jump_goes_to_the_label() {
    let mut frame = frame(Instruction::Jump { target: 7 }, 0);
    assert!(goes_on(start(&mut frame)));
    assert_eq!(frame.lasti, 3);
}

#[test]
fn jump_to_an_unknown_label_cannot_start() {
    assert!(!frame(Instruction::Jump { target: 8 }, 0).can_run());
}

#[test]
fn load_const_pushes_the_object() {
    let mut f = frame(
        Instruction::LoadConst { value: Constant::String { value: "x".to_string() } },
        0,
    );
    let (asked, resume) = service(start(&mut f));
    match asked {
        Service::Constant { value: Constant::String { value } } => assert_eq!(value, "x"),
        other => panic!("{:?}", other),
    }
    assert!(goes_on(reply(&mut f, resume, Reply::Value(obj(5)))));
    assert_eq!(ids(&f.stack), vec![5]);
    for constant in vec![Constant::Integer { value: -3 }, Constant::NoneValue] {
        let mut f = frame(Instruction::LoadConst { value: constant.clone() }, 0);
        let (asked, _) = service(start(&mut f));
        assert_eq!(format!("{:?}", asked), format!("Constant {{ value: {:?} }}", constant));
    }
}

#[test]
fn import_looks_from_the_directory() {
    let mut f = frame(
        Instruction::Import { name: "os".to_string(), symbol: Some("path".to_string()) },
        0,
    );
    match service(start(&mut f)) {
        (Service::Import { path, module, symbol }, resume) => {
            assert_eq!((path.as_str(), module.as_str()), ("lib", "os"));
            assert_eq!(symbol, Some("path".to_string()));
            let step = reply(&mut f, resume, Reply::Failed(obj(8)));
            assert!(matches!(step, Step::Finished(Err(exc)) if exc.id == 8));
        }
        other => panic!("{:?}", other),
    }
}

#[test]
fn import_star_stores_names() {
    let mut f = frame(Instruction::ImportStar { name: "m".to_string() }, 0);
    let (asked, resume) = service(start(&mut f));
    assert!(matches!(asked, Service::ImportModule { .. }));
    let (asked, resume) = query(reply(&mut f, resume, Reply::Value(obj(20))));
    assert!(matches!(asked, Query::KeyValuePairs { obj } if obj.id == 20));
    let pairs = vec![(obj(1), obj(2)), (obj(3), obj(4))];
    let (asked, resume) = query(reply(&mut f, resume, Reply::Pairs(pairs)));
    assert!(matches!(asked, Query::StrValue { obj } if obj.id == 1));
    let (asked, resume) = service(reply(&mut f, resume, Reply::Text("a".to_string())));
    match asked {
        Service::SetAttr { obj, name, value } => {
            assert_eq!((obj.id, name.as_str(), value.id), (100, "a", 2))
        }
        other => panic!("{:?}", other),
    }
    let (asked, resume) = query(reply(&mut f, resume, Reply::Done));
    assert!(matches!(asked, Query::StrValue { obj } if obj.id == 3));
    let (asked, resume) = service(reply(&mut f, resume, Reply::Text("b".to_string())));
    assert!(matches!(asked, Service::SetAttr { value, .. } if value.id == 4));
    assert!(goes_on(reply(&mut f, resume, Reply::Done)));
}

#[test]
fn load_name_climbs_to_the_scope_that_holds_it() {
    let mut f = frame(Instruction::LoadName { name: "x".to_string() }, 0);
    let (asked, resume) = query(start(&mut f));
    assert!(matches!(asked, Query::ScopeContains { scope, .. } if scope.id == 100));
    let (asked, resume) = query(reply(&mut f, resume, Reply::Truth(false)));
    assert!(matches!(asked, Query::ScopeHasParent { scope } if scope.id == 100));
    let (asked, resume) = query(reply(&mut f, resume, Reply::Truth(true)));
    assert!(matches!(asked, Query::ScopeParent { scope } if scope.id == 100));
    let (asked, resume) = query(reply(&mut f, resume, Reply::Value(obj(101))));
    assert!(matches!(asked, Query::ScopeContains { scope, .. } if scope.id == 101));
    match query(reply(&mut f, resume, Reply::Truth(true))) {
        (Query::ScopeItem { scope, name }, resume) => {
            assert_eq!((scope.id, name.as_str()), (101, "x"));
            assert!(goes_on(reply(&mut f, resume, Reply::Value(obj(5)))));
        }
        other => panic!("{:?}", other),
    }
    assert_eq!(ids(&f.stack), vec![5]);
}

#[test]
fn load_name_raises_a_name_error() {
    let mut f = frame(Instruction::LoadName { name: "spam".to_string() }, 0);
    let (_, resume) = query(start(&mut f));
    let (_, resume) = query(reply(&mut f, resume, Reply::Truth(false)));
    match ask(reply(&mut f, resume, Reply::Truth(false))) {
        (Request::NewException { class, message }, resume) => {
            assert_eq!(class, ExceptionClass::NameError);
            assert_eq!(message, "name 'spam' is not defined");
            let step = reply(&mut f, resume, Reply::Value(obj(6)));
            assert!(matches!(step, Step::Finished(Err(exc)) if exc.id == 6));
        }
        other => panic!("{:?}", other),
    }
}

#[test]
fn store_name_sets_it_in_the_scope() {
    let mut f = frame(Instruction::StoreName { name: "x".to_string() }, 2);
    match service(start(&mut f)) {
        (Service::SetAttr { obj, name, value }, resume) => {
            assert_eq!((obj.id, name.as_str(), value.id), (100, "x", 2));
            assert!(goes_on(reply(&mut f, resume, Reply::Done)));
        }
        other => panic!("{:?}", other),
    }
    assert_eq!(ids(&f.stack), vec![1]);
}

#[test]
fn delete_name_deletes_it_from_the_dict_of_the_scope() {
    let mut f = frame(Instruction::DeleteName { name: "x".to_string() }, 0);
    let (asked, resume) = query(start(&mut f));
    assert!(matches!(asked, Query::ScopeLocals { scope } if scope.id == 100));
    let (on, called, operands, resume) = method(reply(&mut f, resume, Reply::Value(obj(50))));
    assert_eq!((on, called, operands), (50, Method::DelItem, vec!["'x'".to_string()]));
    assert!(goes_on(reply(&mut f, resume, Reply::Value(obj(51)))));
    assert!(f.stack.is_empty());
}

#[test]
fn names_need_a_scope() {
    for instruction in vec![
        Instruction::DeleteName { name: "x".to_string() },
        Instruction::StoreLocals,
    ] {
        let mut f = frame(instruction, 1);
        assert!(f.can_run());
        f.locals = obj(100);
        assert!(!f.can_run());
    }
}

#[test]
fn subscripts() {
    let mut f = frame(Instruction::StoreSubscript, 3);
    let (on, called, operands, _) = method(start(&mut f));
    assert_eq!((on, called, operands), (2, Method::SetItem, vec!["3".to_string(), "1".to_string()]));
    assert!(f.stack.is_empty());
    let mut f = frame(Instruction::DeleteSubscript, 3);
    let (on, called, operands, _) = method(start(&mut f));
    assert_eq!((on, called, operands), (2, Method::DelItem, vec!["3".to_string()]));
    assert_eq!(ids(&f.stack), vec![1]);
}

#[test]
fn stack_shuffling() {
    let mut f = frame(Instruction::Pop, 2);
    assert!(goes_on(start(&mut f)));
    assert_eq!(ids(&f.stack), vec![1]);
    let mut f = frame(Instruction::Duplicate, 2);
    assert!(goes_on(start(&mut f)));
    assert_eq!(ids(&f.stack), vec![1, 2, 2]);
    let mut f = frame(Instruction::Rotate { amount: 2 }, 3);
    assert!(goes_on(start(&mut f)));
    assert_eq!(ids(&f.stack), vec![1, 3, 2]);
    let mut f = frame(Instruction::Rotate { amount: 3 }, 4);
    assert!(goes_on(start(&mut f)));
    assert_eq!(ids(&f.stack), vec![1, 4, 2, 3]);
    assert!(!frame(Instruction::Rotate { amount: 1 }, 3).can_run());
    assert!(!frame(Instruction::Rotate { amount: 4 }, 3).can_run());
}

#[test]
fn instructions_need_their_operands() {
    for (instruction, needed) in vec![
        (Instruction::StoreSubscript, 3),
        (Instruction::DeleteSubscript, 2),
        (Instruction::Pop, 1),
        (Instruction::BuildList { size: 3, unpack: false }, 3),
        (Instruction::BuildMap { size: 2, unpack: false }, 4),
        (Instruction::BuildMap { size: 2, unpack: true }, 2),
        (Instruction::ListAppend { i: 1 }, 2),
        (Instruction::MapAdd { i: 1 }, 3),
        (Instruction::MakeFunction { flags: FunctionOpArg { has_defaults: true } }, 3),
        (Instruction::MakeFunction { flags: FunctionOpArg { has_defaults: false } }, 2),
        (Instruction::CallFunction { typ: CallType::Positional(2) }, 3),
        (Instruction::YieldFrom, 2),
        (Instruction::Raise { argc: 1 }, 1),
    ] {
        assert!(frame(instruction.clone(), needed).can_run());
        assert!(!frame(instruction, needed - 1).can_run());
    }
    assert!(!frame(Instruction::Raise { argc: 0 }, 3).can_run());
    assert!(!frame(Instruction::Raise { argc: 2 }, 3).can_run());
}

#[test]
fn build_string_joins() {
    let mut f = frame(Instruction::BuildString { size: 2 }, 3);
    let (asked, resume) = query(start(&mut f));
    assert!(matches!(asked, Query::StrValue { obj } if obj.id == 2));
    let (asked, resume) = query(reply(&mut f, resume, Reply::Text("ab".to_string())));
    assert!(matches!(asked, Query::StrValue { obj } if obj.id == 3));
    match ask(reply(&mut f, resume, Reply::Text("cd".to_string()))) {
        (Request::NewStr { value }, resume) => {
            assert_eq!(value, "abcd");
            assert!(goes_on(reply(&mut f, resume, Reply::Value(obj(9)))));
        }
        other => panic!("{:?}", other),
    }
    assert_eq!(ids(&f.stack), vec![1, 9]);
}

#[test]
fn build_string_of_nothing() {
    let mut f = frame(Instruction::BuildString { size: 0 }, 1);
    assert!(matches!(ask(start(&mut f)).0, Request::NewStr { value } if value.is_empty()));
}

#[test]
fn build_list_and_tuple() {
    let mut f = frame(Instruction::BuildList { size: 2, unpack: false }, 3);
    match ask(start(&mut f)).0 {
        Request::NewList { elements } => assert_eq!(ids(&elements), vec![2, 3]),
        other => panic!("{:?}", other),
    }
    let mut f = frame(Instruction::BuildTuple { size: 2, unpack: true }, 2);
    let (asked, resume) = service(start(&mut f));
    assert!(matches!(asked, Service::ExtractElements { obj } if obj.id == 1));
    let (asked, resume) =
        service(reply(&mut f, resume, Reply::Elements(vec![obj(11), obj(12)])));
    assert!(matches!(asked, Service::ExtractElements { obj } if obj.id == 2));
    match ask(reply(&mut f, resume, Reply::Elements(vec![obj(13)]))).0 {
        Request::NewTuple { elements } => assert_eq!(ids(&elements), vec![11, 12, 13]),
        other => panic!("{:?}", other),
    }
}

#[test]
fn build_set_adds() {
    let mut f = frame(Instruction::BuildSet { size: 2, unpack: false }, 2);
    let (asked, resume) = service(start(&mut f));
    assert!(matches!(asked, Service::NewSet));
    let (on, called, operands, resume) = method(reply(&mut f, resume, Reply::Value(obj(30))));
    assert_eq!((on, called, operands), (30, Method::Add, vec!["1".to_string()]));
    let (_, _, operands, resume) = method(reply(&mut f, resume, Reply::Value(obj(31))));
    assert_eq!(operands, vec!["2".to_string()]);
    assert!(goes_on(reply(&mut f, resume, Reply::Value(obj(31)))));
    assert_eq!(ids(&f.stack), vec![30]);
}

#[test]
fn build_set_stops_at_a_failure() {
    let mut f = frame(Instruction::BuildSet { size: 2, unpack: false }, 2);
    let (_, resume) = service(start(&mut f));
    let (_, _, _, resume) = method(reply(&mut f, resume, Reply::Value(obj(30))));
    let step = reply(&mut f, resume, Reply::Failed(obj(40)));
    assert!(matches!(step, Step::Finished(Err(exc)) if exc.id == 40));
    assert!(f.stack.is_empty());
}

#[test]
fn build_map_sets_the_last_entry_first() {
    let mut f = frame(Instruction::BuildMap { size: 2, unpack: false }, 5);
    let (asked, resume) = service(start(&mut f));
    assert!(matches!(asked, Service::NewDict));
    let (asked, resume) = service(reply(&mut f, resume, Reply::Value(obj(30))));
    match asked {
        Service::SetItem { map, key, value } => {
            assert_eq!((map.id, key.id, value.id), (30, 4, 5))
        }
        other => panic!("{:?}", other),
    }
    let (asked, resume) = service(reply(&mut f, resume, Reply::Done));
    assert!(matches!(asked, Service::SetItem { key, value, .. } if key.id == 2 && value.id == 3));
    assert!(goes_on(reply(&mut f, resume, Reply::Done)));
    assert_eq!(ids(&f.stack), vec![1, 30]);
}

#[test]
fn build_map_unpacks() {
    let mut f = frame(Instruction::BuildMap { size: 2, unpack: true }, 2);
    let (_, resume) = service(start(&mut f));
    let (asked, resume) = query(reply(&mut f, resume, Reply::Value(obj(30))));
    assert!(matches!(asked, Query::DictPairs { obj } if obj.id == 2));
    let pairs = vec![(obj(11), obj(12)), (obj(13), obj(14))];
    let (asked, resume) = service(reply(&mut f, resume, Reply::Pairs(pairs)));
    assert!(matches!(asked, Service::SetItem { key, .. } if key.id == 11));
    let (asked, resume) = service(reply(&mut f, resume, Reply::Done));
    assert!(matches!(asked, Service::SetItem { key, .. } if key.id == 13));
    let (asked, resume) = query(reply(&mut f, resume, Reply::Done));
    assert!(matches!(asked, Query::DictPairs { obj } if obj.id == 1));
    assert!(goes_on(reply(&mut f, resume, Reply::Pairs(vec![]))));
    assert_eq!(ids(&f.stack), vec![30]);
}

#[test]
fn build_slice_takes_integers_and_none() {
    let mut f = frame(Instruction::BuildSlice { size: 3 }, 1);
    f.push_value(integer(2, -7));
    f.push_value(none(3));
    f.push_value(integer(4, 2));
    match service(start(&mut f)).0 {
        Service::NewSlice { start, stop, step } => {
            assert_eq!(start, Some(BigInt::from(-7)));
            assert_eq!(stop, None);
            assert_eq!(step, Some(BigInt::from(2)));
        }
        other => panic!("{:?}", other),
    }
    assert_eq!(ids(&f.stack), vec![1]);
    let mut f = frame(Instruction::BuildSlice { size: 2 }, 0);
    f.push_value(none(1));
    f.push_value(integer(2, 5));
    match service(start(&mut f)).0 {
        Service::NewSlice { start, stop, step } => {
            assert_eq!((start, stop, step), (None, Some(BigInt::from(5)), None))
        }
        other => panic!("{:?}", other),
    }
}

#[test]
fn build_slice_refuses_other_objects() {
    let mut f = frame(Instruction::BuildSlice { size: 2 }, 1);
    f.push_value(integer(2, 5));
    assert!(!f.can_run());
    assert!(!frame(Instruction::BuildSlice { size: 4 }, 4).can_run());
}

#[test]
fn comprehension_targets() {
    let mut f = frame(Instruction::ListAppend { i: 2 }, 4);
    match service(start(&mut f)).0 {
        Service::ListAppend { list, item } => assert_eq!((list.id, item.id), (2, 4)),
        other => panic!("{:?}", other),
    }
    let mut f = frame(Instruction::SetAdd { i: 1 }, 4);
    let (on, called, operands, _) = method(start(&mut f));
    assert_eq!((on, called, operands), (3, Method::Add, vec!["4".to_string()]));
    let mut f = frame(Instruction::MapAdd { i: 1 }, 4);
    let (on, called, operands, resume) = method(start(&mut f));
    assert_eq!(
        (on, called, operands),
        (2, Method::SetItem, vec!["4".to_string(), "3".to_string()])
    );
    assert!(goes_on(reply(&mut f, resume, Reply::Value(obj(9)))));
    assert_eq!(ids(&f.stack), vec![1, 2]);
}

#[test]
fn binary_operators() {
    for (op, plain, inplace) in vec![
        (BinaryOperator::Subtract, Operator::Sub, Operator::ISub),
        (BinaryOperator::Add, Operator::Add, Operator::IAdd),
        (BinaryOperator::Multiply, Operator::Mul, Operator::IMul),
        (BinaryOperator::MatrixMultiply, Operator::MatMul, Operator::IMatMul),
        (BinaryOperator::Power, Operator::Pow, Operator::IPow),
        (BinaryOperator::Divide, Operator::TrueDiv, Operator::ITrueDiv),
        (BinaryOperator::FloorDivide, Operator::FloorDiv, Operator::IFloorDiv),
        (BinaryOperator::Modulo, Operator::Mod, Operator::IMod),
        (BinaryOperator::Lshift, Operator::Lshift, Operator::ILshift),
        (BinaryOperator::Rshift, Operator::Rshift, Operator::IRshift),
        (BinaryOperator::Xor, Operator::Xor, Operator::IXor),
        (BinaryOperator::Or, Operator::Or, Operator::IOr),
        (BinaryOperator::And, Operator::And, Operator::IAnd),
    ] {
        for (flag, expected) in vec![(false, plain), (true, inplace)] {
            let mut f = frame(Instruction::BinaryOperation { op, inplace: flag }, 3);
            match service(start(&mut f)) {
                (Service::Binary { op, a, b }, resume) => {
                    assert_eq!((op, a.id, b.id), (expected, 2, 3));
                    assert!(goes_on(reply(&mut f, resume, Reply::Value(obj(9)))));
                }
                other => panic!("{:?}", other),
            }
            assert_eq!(ids(&f.stack), vec![1, 9]);
        }
    }
}

#[test]
fn subscription() {
    let op = BinaryOperator::Subscript;
    let mut f = frame(Instruction::BinaryOperation { op, inplace: false }, 2);
    let (on, called, operands, _) = method(start(&mut f));
    assert_eq!((on, called, operands), (1, Method::GetItem, vec!["2".to_string()]));
    assert!(!frame(Instruction::BinaryOperation { op, inplace: true }, 2).can_run());
}

#[test]
fn unary_operators() {
    for (op, expected) in vec![
        (UnaryOperator::Minus, Method::Neg),
        (UnaryOperator::Plus, Method::Pos),
        (UnaryOperator::Invert, Method::Invert),
    ] {
        let mut f = frame(Instruction::UnaryOperation { op }, 1);
        let (on, called, operands, _) = method(start(&mut f));
        assert_eq!((on, called, operands.len()), (1, expected, 0));
    }
    let mut f = frame(Instruction::UnaryOperation { op: UnaryOperator::Not }, 1);
    let (asked, resume) = service(start(&mut f));
    assert!(matches!(asked, Service::BoolVal { obj } if obj.id == 1));
    let (asked, _) = service(reply(&mut f, resume, Reply::Truth(true)));
    assert!(matches!(asked, Service::NewBool { value: false }));
}

#[test]
fn comparisons() {
    for (op, expected) in vec![
        (ComparisonOperator::Equal, Operator::Eq),
        (ComparisonOperator::NotEqual, Operator::Ne),
        (ComparisonOperator::Less, Operator::Lt),
        (ComparisonOperator::LessOrEqual, Operator::Le),
        (ComparisonOperator::Greater, Operator::Gt),
        (ComparisonOperator::GreaterOrEqual, Operator::Ge),
    ] {
        let mut f = frame(Instruction::CompareOperation { op }, 2);
        match service(start(&mut f)).0 {
            Service::Binary { op, a, b } => assert_eq!((op, a.id, b.id), (expected, 1, 2)),
            other => panic!("{:?}", other),
        }
    }
}

#[test]
fn identity() {
    for (op, same, expected) in vec![
        (ComparisonOperator::Is, true, true),
        (ComparisonOperator::Is, false, false),
        (ComparisonOperator::IsNot, true, false),
        (ComparisonOperator::IsNot, false, true),
    ] {
        let mut f = frame(Instruction::CompareOperation { op }, 1);
        f.push_value(obj(if same { 1 } else { 2 }));
        assert!(matches!(service(start(&mut f)).0, Service::NewBool { value } if value == expected));
    }
    let f = frame(Instruction::Pass, 0);
    assert_eq!(f._id(&obj(12)), 12);
    assert!(f._is(&obj(12), &obj(12)));
}

#[test]
fn membership() {
    let mut f = frame(Instruction::CompareOperation { op: ComparisonOperator::In }, 2);
    let (on, called, operands, resume) = method(start(&mut f));
    assert_eq!((on, called, operands), (2, Method::Contains, vec!["1".to_string()]));
    assert!(goes_on(reply(&mut f, resume, Reply::Value(obj(9)))));
    assert_eq!(ids(&f.stack), vec![9]);
    let mut f = frame(Instruction::CompareOperation { op: ComparisonOperator::NotIn }, 2);
    let (on, called, operands, resume) = method(start(&mut f));
    assert_eq!((on, called, operands), (2, Method::Contains, vec!["1".to_string()]));
    let (asked, resume) = query(reply(&mut f, resume, Reply::Value(obj(9))));
    assert!(matches!(asked, Query::BoolValue { obj } if obj.id == 9));
    let (asked, _) = service(reply(&mut f, resume, Reply::Truth(false)));
    assert!(matches!(asked, Service::NewBool { value: true }));
}

#[test]
fn membership_of_what_cannot_be_searched() {
    for op in vec![ComparisonOperator::In, ComparisonOperator::NotIn] {
        let mut f = frame(Instruction::CompareOperation { op }, 2);
        let (_, _, _, resume) = method(start(&mut f));
        let (asked, resume) = query(reply(&mut f, resume, Reply::Failed(obj(9))));
        assert!(matches!(asked, Query::TypeName { obj } if obj.id == 2));
        match ask(reply(&mut f, resume, Reply::Text("int".to_string()))).0 {
            Request::NewException { class, message } => {
                assert_eq!(class, ExceptionClass::TypeError);
                assert_eq!(message, "int has no __contains__ method");
            }
            other => panic!("{:?}", other),
        }
    }
}

#[test]
fn attributes() {
    let mut f = frame(Instruction::LoadAttr { name: "n".to_string() }, 2);
    match service(start(&mut f)).0 {
        Service::GetAttribute { obj, name } => assert_eq!((obj.id, name.as_str()), (2, "n")),
        other => panic!("{:?}", other),
    }
    let mut f = frame(Instruction::StoreAttr { name: "n".to_string() }, 2);
    match service(start(&mut f)).0 {
        Service::SetAttr { obj, name, value } => {
            assert_eq!((obj.id, name.as_str(), value.id), (2, "n", 1))
        }
        other => panic!("{:?}", other),
    }
    let mut f = frame(Instruction::DeleteAttr { name: "n".to_string() }, 2);
    match service(start(&mut f)).0 {
        Service::DelAttr { obj, name } => assert_eq!((obj.id, name.as_str()), (2, "n")),
        other => panic!("{:?}", other),
    }
    assert_eq!(ids(&f.stack), vec![1]);
}

#[test]
fn conditional_jumps() {
    for (instruction, truth, target) in vec![
        (Instruction::JumpIf { target: 7 }, true, 3),
        (Instruction::JumpIf { target: 7 }, false, 1),
        (Instruction::JumpIfFalse { target: 7 }, true, 1),
        (Instruction::JumpIfFalse { target: 7 }, false, 3),
    ] {
        let mut f = frame(instruction, 1);
        let (_, resume) = service(start(&mut f));
        assert!(goes_on(reply(&mut f, resume, Reply::Truth(truth))));
        assert_eq!(f.lasti, target);
        assert!(f.stack.is_empty());
    }
    let mut f = frame(Instruction::JumpIf { target: 8 }, 1);
    let (_, resume) = service(start(&mut f));
    assert!(!f.can_resume(&resume, &Reply::Truth(true)));
    assert!(f.can_resume(&resume, &Reply::Truth(false)));
    assert!(!f.can_resume(&resume, &Reply::Done));
}

#[test]
fn for_iter() {
    let mut f = frame(Instruction::ForIter { target: 7 }, 2);
    let (asked, resume) = service(start(&mut f));
    assert!(matches!(asked, Service::NextObject { iterator } if iterator.id == 2));
    assert!(goes_on(reply(&mut f, resume, Reply::Next(Some(obj(9))))));
    assert_eq!(ids(&f.stack), vec![1, 2, 9]);
    let mut f = frame(Instruction::ForIter { target: 7 }, 2);
    let (_, resume) = service(start(&mut f));
    assert!(goes_on(reply(&mut f, resume, Reply::Next(None))));
    assert_eq!((ids(&f.stack), f.lasti), (vec![1], 3));
    let mut f = frame(Instruction::ForIter { target: 7 }, 2);
    let (_, resume) = service(start(&mut f));
    let step = reply(&mut f, resume, Reply::Failed(obj(9)));
    assert!(matches!(step, Step::Finished(Err(exc)) if exc.id == 9));
    assert_eq!((ids(&f.stack), f.lasti), (vec![1], 1));
}

#[test]
fn get_iter() {
    let mut f = frame(Instruction::GetIter, 1);
    let (asked, resume) = service(start(&mut f));
    assert!(matches!(asked, Service::GetIter { obj } if obj.id == 1));
    assert!(goes_on(reply(&mut f, resume, Reply::Value(obj(2)))));
    assert_eq!(ids(&f.stack), vec![2]);
}

#[test]
fn yields() {
    let mut f = frame(Instruction::YieldValue, 2);
    let step = start(&mut f);
    assert!(matches!(step, Step::Finished(Ok(Some(ExecutionResult::Yield(value)))) if value.id == 2));
    let mut f = frame(Instruction::YieldFrom, 3);
    let (asked, resume) = service(start(&mut f));
    assert!(matches!(asked, Service::NextObject { iterator } if iterator.id == 2));
    let step = reply(&mut f, resume, Reply::Next(Some(obj(9))));
    assert!(matches!(step, Step::Finished(Ok(Some(ExecutionResult::Yield(value)))) if value.id == 9));
    assert_eq!((ids(&f.stack), f.lasti), (vec![1, 2], 0));
    f.push_value(obj(4));
    let (_, resume) = service(start(&mut f));
    assert!(goes_on(reply(&mut f, resume, Reply::Next(None))));
    assert_eq!((ids(&f.stack), f.lasti), (vec![1], 1));
}

#[test]
fn make_function_with_and_without_defaults() {
    let mut f = frame(Instruction::MakeFunction { flags: FunctionOpArg { has_defaults: true } }, 4);
    match service(start(&mut f)).0 {
        Service::NewFunction { code, scope, defaults } => {
            assert_eq!((code.id, scope.id), (3, 100));
            assert_eq!(defaults.unwrap().id, 2);
        }
        other => panic!("{:?}", other),
    }
    assert_eq!(ids(&f.stack), vec![1]);
    let mut f =
        frame(Instruction::MakeFunction { flags: FunctionOpArg { has_defaults: false } }, 4);
    match service(start(&mut f)).0 {
        Service::NewFunction { code, defaults, .. } => {
            assert_eq!(code.id, 3);
            assert!(defaults.is_none());
        }
        other => panic!("{:?}", other),
    }
}

#[test]
fn positional_call() {
    let mut f = frame(Instruction::CallFunction { typ: CallType::Positional(2) }, 4);
    match ask(start(&mut f)) {
        (Request::Invoke { func, args, kwargs }, resume) => {
            assert_eq!((func.id, ids(&args), kwargs.len()), (2, vec![3, 4], 0));
            assert!(goes_on(reply(&mut f, resume, Reply::Value(obj(9)))));
        }
        other => panic!("{:?}", other),
    }
    assert_eq!(ids(&f.stack), vec![1, 9]);
}

#[test]
fn keyword_call() {
    let mut f = frame(Instruction::CallFunction { typ: CallType::Keyword(2) }, 4);
    let (asked, resume) = service(start(&mut f));
    assert!(matches!(asked, Service::ExtractElements { obj } if obj.id == 4));
    let (asked, resume) = query(reply(&mut f, resume, Reply::Elements(vec![obj(20), obj(21)])));
    assert!(matches!(asked, Query::StrValue { obj } if obj.id == 20));
    let (_, resume) = query(reply(&mut f, resume, Reply::Text("a".to_string())));
    match ask(reply(&mut f, resume, Reply::Text("b".to_string()))).0 {
        Request::InvokeNamed { func, args, names } => {
            assert_eq!((func.id, ids(&args)), (1, vec![2, 3]));
            assert_eq!(names, vec!["a".to_string(), "b".to_string()]);
        }
        other => panic!("{:?}", other),
    }
    assert!(f.stack.is_empty());
}

#[test]
fn keyword_call_whose_names_fail_keeps_the_function() {
    let mut f = frame(Instruction::CallFunction { typ: CallType::Keyword(1) }, 3);
    let (_, resume) = service(start(&mut f));
    let step = reply(&mut f, resume, Reply::Failed(obj(9)));
    assert!(matches!(step, Step::Finished(Err(exc)) if exc.id == 9));
    assert_eq!(ids(&f.stack), vec![1]);
}

#[test]
fn call_with_a_dict() {
    let mut f = frame(Instruction::CallFunction { typ: CallType::Ex(true) }, 3);
    let (asked, resume) = query(start(&mut f));
    assert!(matches!(asked, Query::DictEntries { obj } if obj.id == 3));
    let entries = vec![("k".to_string(), (obj(20), obj(21)))];
    let (asked, resume) = service(reply(&mut f, resume, Reply::Entries(entries)));
    assert!(matches!(asked, Service::ExtractElements { obj } if obj.id == 2));
    match ask(reply(&mut f, resume, Reply::Elements(vec![obj(30)]))).0 {
        Request::Invoke { func, args, kwargs } => {
            assert_eq!((func.id, ids(&args)), (1, vec![30]));
            assert_eq!((kwargs.len(), kwargs[0].0.as_str(), kwargs[0].1.id), (1, "k", 21));
        }
        other => panic!("{:?}", other),
    }
    let mut f = frame(Instruction::CallFunction { typ: CallType::Ex(false) }, 2);
    let (_, resume) = service(start(&mut f));
    match ask(reply(&mut f, resume, Reply::Elements(vec![]))).0 {
        Request::Invoke { func, args, kwargs } => {
            assert_eq!((func.id, args.len(), kwargs.len()), (1, 0, 0))
        }
        other => panic!("{:?}", other),
    }
}

#[test]
fn raise_an_exception() {
    let mut f = frame(Instruction::Raise { argc: 1 }, 1);
    let (asked, resume) = query(start(&mut f));
    assert!(matches!(asked, Query::IsInstance { class: Class::BaseException, .. }));
    let step = reply(&mut f, resume, Reply::Truth(true));
    assert!(matches!(step, Step::Finished(Err(exc)) if exc.id == 1));
}

#[test]
fn raise_a_class_of_exceptions() {
    let mut f = frame(Instruction::Raise { argc: 1 }, 1);
    let (_, resume) = query(start(&mut f));
    let (asked, resume) = query(reply(&mut f, resume, Reply::Truth(false)));
    assert!(matches!(asked, Query::IsInstance { class: Class::Type, .. }));
    let (asked, resume) = query(reply(&mut f, resume, Reply::Truth(true)));
    assert!(matches!(asked, Query::IsSubclass { class: Class::BaseException, .. }));
    let (asked, resume) = service(reply(&mut f, resume, Reply::Truth(true)));
    assert!(matches!(asked, Service::EmptyException { class } if class.id == 1));
    let step = reply(&mut f, resume, Reply::Value(obj(7)));
    assert!(matches!(step, Step::Finished(Err(exc)) if exc.id == 7));
}

#[test]
fn raise_anything_else() {
    for replies in vec![vec![false, false], vec![false, true, false]] {
        let mut f = frame(Instruction::Raise { argc: 1 }, 1);
        let mut step = start(&mut f);
        for truth in replies {
            let (_, resume) = query(step);
            step = reply(&mut f, resume, Reply::Truth(truth));
        }
        let (asked, resume) = query(step);
        assert!(matches!(asked, Query::Display { obj } if obj.id == 1));
        match ask(reply(&mut f, resume, Reply::Text("5".to_string()))).0 {
            Request::NewException { class, message } => {
                assert_eq!(class, ExceptionClass::TypeError);
                assert_eq!(message, "Can only raise BaseException derived types, not 5");
            }
            other => panic!("{:?}", other),
        }
    }
}

#[test]
fn print_expr() {
    let mut f = frame(Instruction::PrintExpr, 0);
    f.push_value(none(1));
    assert!(goes_on(start(&mut f)));
    assert!(f.stack.is_empty());
    let mut f = frame(Instruction::PrintExpr, 1);
    let (asked, resume) = service(start(&mut f));
    assert!(matches!(asked, Service::ToRepr { obj } if obj.id == 1));
    let (asked, resume) = service(reply(&mut f, resume, Reply::Value(obj(2))));
    assert!(matches!(asked, Service::Print { obj } if obj.id == 2));
    assert!(goes_on(reply(&mut f, resume, Reply::Value(obj(3)))));
}

#[test]
fn class_and_locals() {
    let mut f = frame(Instruction::LoadBuildClass, 0);
    assert!(matches!(service(start(&mut f)).0, Service::BuildClass));
    let mut f = frame(Instruction::StoreLocals, 1);
    match service(start(&mut f)).0 {
        Service::SetScopeLocals { scope, locals } => assert_eq!((scope.id, locals.id), (100, 1)),
        other => panic!("{:?}", other),
    }
}

#[test]
fn unpack_sequence() {
    let mut f = frame(Instruction::UnpackSequence { size: 2 }, 2);
    let (asked, resume) = service(start(&mut f));
    assert!(matches!(asked, Service::ExtractElements { obj } if obj.id == 2));
    assert!(goes_on(reply(&mut f, resume, Reply::Elements(vec![obj(11), obj(12)]))));
    assert_eq!(ids(&f.stack), vec![1, 12, 11]);
    let mut f = frame(Instruction::UnpackSequence { size: 2 }, 1);
    let (_, resume) = service(start(&mut f));
    match ask(reply(&mut f, resume, Reply::Elements(vec![obj(11)]))).0 {
        Request::NewException { class, message } => {
            assert_eq!(class, ExceptionClass::ValueError);
            assert_eq!(message, "Wrong number of values to unpack");
        }
        other => panic!("{:?}", other),
    }
}

#[test]
fn unpack_everything() {
    let mut f = frame(Instruction::Unpack, 1);
    let (_, resume) = service(start(&mut f));
    assert!(goes_on(reply(&mut f, resume, Reply::Elements(vec![obj(11), obj(12), obj(13)]))));
    assert_eq!(ids(&f.stack), vec![13, 12, 11]);
}

#[test]
fn unpack_with_a_starred_target() {
    let mut f = frame(Instruction::UnpackEx { before: 1, after: 2 }, 1);
    let (_, resume) = service(start(&mut f));
    let elements = vec![obj(11), obj(12), obj(13), obj(14), obj(15)];
    match ask(reply(&mut f, resume, Reply::Elements(elements))) {
        (Request::NewList { elements }, resume) => {
            assert_eq!(ids(&elements), vec![12, 13]);
            assert!(goes_on(reply(&mut f, resume, Reply::Value(obj(20)))));
        }
        other => panic!("{:?}", other),
    }
    assert_eq!(ids(&f.stack), vec![15, 14, 20, 11]);
}

#[test]
fn unpack_with_too_few_values() {
    let mut f = frame(Instruction::UnpackEx { before: 10, after: 2 }, 1);
    let (_, resume) = service(start(&mut f));
    match ask(reply(&mut f, resume, Reply::Elements(vec![obj(11)]))).0 {
        Request::NewException { class, message } => {
            assert_eq!(class, ExceptionClass::ValueError);
            assert_eq!(message, "Not enough values to unpack (expected at least 12, got 1");
        }
        other => panic!("{:?}", other),
    }
    let mut f = frame(Instruction::UnpackEx { before: usize::MAX, after: 1 }, 1);
    let (_, resume) = service(start(&mut f));
    assert!(!f.can_resume(&resume, &Reply::Elements(vec![])));
}

#[test]
fn format_values() {
    for (conversion, as_str) in
        vec![(Some(ConversionFlag::Str), true), (Some(ConversionFlag::Repr), false)]
    {
        let mut f = frame(Instruction::FormatValue { conversion, spec: ">4".to_string() }, 1);
        let (asked, resume) = service(start(&mut f));
        match asked {
            Service::ToStr { obj } => assert!(as_str && obj.id == 1),
            Service::ToRepr { obj } => assert!(!as_str && obj.id == 1),
            other => panic!("{:?}", other),
        }
        let (on, called, operands, _) = method(reply(&mut f, resume, Reply::Value(obj(2))));
        assert_eq!((on, called, operands), (2, Method::Format, vec!["'>4'".to_string()]));
    }
    for conversion in vec![Some(ConversionFlag::Ascii), None] {
        let mut f = frame(Instruction::FormatValue { conversion, spec: "".to_string() }, 1);
        let (on, called, operands, _) = method(start(&mut f));
        assert_eq!((on, called, operands), (1, Method::Format, vec!["''".to_string()]));
    }
}

#[test]
fn method_names() {
    for (method, name) in vec![
        (Method::Enter, "__enter__"),
        (Method::Exit, "__exit__"),
        (Method::Add, "add"),
        (Method::GetItem, "__getitem__"),
        (Method::SetItem, "__setitem__"),
        (Method::DelItem, "__delitem__"),
        (Method::Neg, "__neg__"),
        (Method::Pos, "__pos__"),
        (Method::Invert, "__invert__"),
        (Method::Contains, "__contains__"),
        (Method::Format, "__format__"),
    ] {
        assert_eq!(method.name(), name);
    }
}
