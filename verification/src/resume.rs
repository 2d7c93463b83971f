//! How instructions go on with the replies of the virtual machine.

use crate::collect::reversed;
use crate::continuation::{After, Continuation, ContinuationView, ExecutionResult, Step};
use crate::execute::{ask_exception, ask_method, ask_query, ask_service, one_str};
use crate::frame::{BlockType, Frame};
use crate::model;
use crate::object::PyObjectRef;
use crate::request::{Class, ExceptionClass, Method, Query, Reply, Request, Service};
use crate::text::{
    no_contains_message, not_an_exception_message, not_defined_message, not_enough_message,
    wrong_number_message,
};
use vstd::prelude::*;

verus! {

/// The entries of a dict as named arguments.
fn named_arguments(entries: Vec<(String, (PyObjectRef, PyObjectRef))>) -> (kwargs: Vec<
    (String, PyObjectRef),
>)
    ensures
        kwargs@ == entries@.map_values(
            |entry: (String, (PyObjectRef, PyObjectRef))| (entry.0, entry.1.1),
        ),
{
    let mut kwargs: Vec<(String, PyObjectRef)> = Vec::new();
    while kwargs.len() < entries.len()
        invariant
            kwargs@.len() <= entries@.len(),
            forall|i: int|
                0 <= i < kwargs@.len() ==> #[trigger] kwargs@[i] == (
                    entries@[i].0,
                    entries@[i].1.1,
                ),
        decreases entries@.len() - kwargs@.len(),
    {
        let entry = &entries[kwargs.len()];
        kwargs.push((entry.0.clone(), (entry.1).1.clone()));
    }
    kwargs
}

impl Reply {
    fn into_value(self) -> (value: PyObjectRef)
        requires
            self is Value,
        ensures
            value == self@->Value_0,
    {
        match self {
            Reply::Value(value) => value,
            _ => vstd::pervasive::unreached(),
        }
    }

    fn into_truth(self) -> (truth: bool)
        requires
            self is Truth,
        ensures
            truth == self@->Truth_0,
    {
        match self {
            Reply::Truth(truth) => truth,
            _ => vstd::pervasive::unreached(),
        }
    }

    fn into_text(self) -> (text: String)
        requires
            self is Text,
        ensures
            text == self@->Text_0,
    {
        match self {
            Reply::Text(text) => text,
            _ => vstd::pervasive::unreached(),
        }
    }

    fn into_elements(self) -> (elements: Vec<PyObjectRef>)
        requires
            self is Elements,
        ensures
            elements@ == self@->Elements_0,
    {
        match self {
            Reply::Elements(elements) => elements,
            _ => vstd::pervasive::unreached(),
        }
    }

    fn into_pairs(self) -> (pairs: Vec<(PyObjectRef, PyObjectRef)>)
        requires
            self is Pairs,
        ensures
            pairs@ == self@->Pairs_0,
    {
        match self {
            Reply::Pairs(pairs) => pairs,
            _ => vstd::pervasive::unreached(),
        }
    }

    fn into_entries(self) -> (entries: Vec<(String, (PyObjectRef, PyObjectRef))>)
        requires
            self is Entries,
        ensures
            entries@ == self@->Entries_0,
    {
        match self {
            Reply::Entries(entries) => entries,
            _ => vstd::pervasive::unreached(),
        }
    }

    fn into_next(self) -> (next: Option<PyObjectRef>)
        requires
            self is Next,
        ensures
            next == self@->Next_0,
    {
        match self {
            Reply::Next(next) => next,
            _ => vstd::pervasive::unreached(),
        }
    }
}

impl After {
    /// Whether `reply` is of the kind that is waited for.
    fn can_take(&self, reply: &Reply) -> (can: bool)
        ensures
            can == self.takes(reply@),
    {
        match self {
            After::Push
            | After::Throw
            | After::Enter { .. }
            | After::PrintRepr
            | After::Format { .. }
            | After::In { .. }
            | After::NotIn { .. }
            | After::ReturnExit { .. }
            | After::LoopExit { .. }
            | After::ImportStar => matches!(reply, Reply::Value(_) | Reply::Failed(_)),
            After::Discard => matches!(reply, Reply::Value(_) | Reply::Done | Reply::Failed(_)),
            After::Negate | After::JumpWhen { .. } => {
                matches!(reply, Reply::Truth(_) | Reply::Failed(_))
            },
            After::Advance { .. } | After::Delegate => {
                matches!(reply, Reply::Next(_) | Reply::Failed(_))
            },
            After::NoContains | After::RaiseInvalid => matches!(reply, Reply::Text(_)),
            After::LookUp { .. }
            | After::Climb { .. }
            | After::RaiseInstance { .. }
            | After::RaiseType { .. }
            | After::RaiseSubclass { .. } => matches!(reply, Reply::Truth(_)),
            After::Ascend { .. } | After::DeleteName { .. } => matches!(reply, Reply::Value(_)),
            After::UnpackSequence { .. } | After::UnpackEx { .. } | After::Unpack => {
                matches!(reply, Reply::Elements(_) | Reply::Failed(_))
            },
            After::CallEntries => matches!(reply, Reply::Entries(_)),
            After::ImportPairs => matches!(reply, Reply::Pairs(_)),
        }
    }
}

impl Continuation {
    /// Whether `reply` is of the kind that is waited for.
    fn can_take(&self, reply: &Reply) -> (can: bool)
        ensures
            can == self@.takes(reply@),
    {
        match self {
            Continuation::After(after) => after.can_take(reply),
            Continuation::Join { .. }
            | Continuation::CallName { .. }
            | Continuation::ImportName { .. } => matches!(reply, Reply::Text(_)),
            Continuation::Gather { .. }
            | Continuation::CallNames { .. }
            | Continuation::CallElements { .. } => {
                matches!(reply, Reply::Elements(_) | Reply::Failed(_))
            },
            Continuation::StartSet { .. }
            | Continuation::StartMap { .. }
            | Continuation::UnpackFirst { .. } => matches!(reply, Reply::Value(_)),
            Continuation::FillSet { .. } => matches!(reply, Reply::Value(_) | Reply::Failed(_)),
            Continuation::FillMap { .. } | Continuation::ImportNext { .. } => {
                matches!(reply, Reply::Done)
            },
            Continuation::MapPairs { .. } => matches!(reply, Reply::Pairs(_)),
        }
    }
}

impl Frame {
    /// Pushes the elements between the first `before` and the last `after` ones as a list, and
    /// the others around it.
    fn unpack_ex(&mut self, before: usize, after: usize, elements: Vec<PyObjectRef>) -> (step: Step)
        requires
            before + after <= usize::MAX,
        ensures
            (final(self)@, step@) == model::unpack_ex(
                old(self)@,
                before as int,
                after as int,
                elements@,
            ),
    {
        let min_expected: usize = before + after;
        if elements.len() < min_expected {
            ask_exception(
                ExceptionClass::ValueError,
                not_enough_message(min_expected, elements.len()),
            )
        } else {
            let ghost all = elements@;
            let mut first = elements;
            let mut middle = first.split_off(before);
            let last = middle.split_off(middle.len() - after);
            proof {
                assert(last@ == all.skip(all.len() - after));
                assert(middle@ == all.subrange(before as int, all.len() - after));
                assert(first@ == all.take(before as int));
            }
            self.push_reversed(last);
            Step::Ask {
                request: Request::NewList { elements: middle },
                resume: Continuation::UnpackFirst { first },
            }
        }
    }

    /// Whether the instruction can go on with the reply.
    pub fn can_resume(&self, resume: &Continuation, reply: &Reply) -> (can: bool)
        ensures
            can == model::can_resume(self@, resume@, reply@),
    {
        if !resume.can_take(reply) {
            return false;
        }
        let n: usize = self.stack.len();
        match (resume, reply) {
            (Continuation::After(After::JumpWhen { target, when }), Reply::Truth(truth)) => *truth
                != *when || self.has_label(*target),
            (Continuation::After(After::Advance { target }), Reply::Next(next)) => match next {
                Some(_) => true,
                None => n >= 1 && self.has_label(*target),
            },
            (Continuation::After(After::Advance { .. }), _) => n >= 1,
            (Continuation::After(After::Delegate), Reply::Next(next)) => match next {
                Some(_) => self.lasti >= 1,
                None => n >= 1,
            },
            (Continuation::After(After::UnpackEx { before, after }), Reply::Elements(_)) => *before
                <= usize::MAX - *after,
            (Continuation::After(After::LoopExit { jump }), Reply::Value(_)) => {
                let depth: usize = self.blocks.len();
                if depth == 0 {
                    false
                } else {
                    proof {
                        assert(self@.blocks.drop_last() == self@.blocks.take(depth - 1));
                    }
                    self.can_unwind_from(depth - 1, *jump)
                }
            },
            (Continuation::After(After::LoopExit { .. }), _) => false,
            (Continuation::After(After::CallEntries), _) => n >= 1,
            (Continuation::CallNames { .. }, Reply::Elements(elements)) => elements.len() > 0 || n
                >= 1,
            (Continuation::CallName { rest, .. }, _) => rest.len() > 0 || n >= 1,
            (Continuation::CallElements { .. }, Reply::Elements(_)) => n >= 1,
            _ => true,
        }
    }

    /// Goes on with a failure.
    fn resume_failed(&mut self, resume: Continuation, exc: PyObjectRef) -> (step: Step)
        requires
            resume@ matches ContinuationView::After(After::Advance { .. })
                ==> old(self)@.stack.len() >= 1,
        ensures
            (final(self)@, step@) == model::resume_failed(old(self)@, resume@, exc),
    {
        match resume {
            Continuation::After(After::Advance { .. }) => {
                self.pop_value();
                Step::Finished(Err(exc))
            },
            Continuation::After(After::In { haystack }) => ask_query(
                Query::TypeName { obj: haystack },
                After::NoContains,
            ),
            Continuation::After(After::NotIn { haystack }) => ask_query(
                Query::TypeName { obj: haystack },
                After::NoContains,
            ),
            _ => Step::Finished(Err(exc)),
        }
    }

    /// Goes on where nothing failed.
    fn resume_after(&mut self, after: After, reply: Reply) -> (step: Step)
        requires
            model::can_resume(
                old(self)@,
                ContinuationView::After(after),
                reply@,
            ),
            !(reply is Failed),
        ensures
            (final(self)@, step@) == model::resume_after(old(self)@, after, reply@),
    {
        match after {
            After::Push | After::In { .. } => {
                self.push_value(reply.into_value());
                Step::Finished(Ok(None))
            },
            After::Discard => Step::Finished(Ok(None)),
            After::Throw => Step::Finished(Err(reply.into_value())),
            After::Negate => ask_service(
                Service::NewBool { value: !reply.into_truth() },
                After::Push,
            ),
            After::JumpWhen { target, when } => {
                if reply.into_truth() == when {
                    self.jump(target);
                }
                Step::Finished(Ok(None))
            },
            After::Advance { target } => {
                match reply.into_next() {
                    Some(value) => {
                        self.push_value(value);
                    },
                    None => {
                        self.pop_value();
                        self.jump(target);
                    },
                }
                Step::Finished(Ok(None))
            },
            After::Delegate => match reply.into_next() {
                Some(value) => {
                    // Set back the program counter.
                    self.lasti = self.lasti - 1;
                    Step::Finished(Ok(Some(ExecutionResult::Yield(value))))
                },
                None => {
                    self.pop_value();
                    Step::Finished(Ok(None))
                },
            },
            After::Enter { end, context_manager } => {
                self.push_block(BlockType::With { end, context_manager });
                self.push_value(reply.into_value());
                Step::Finished(Ok(None))
            },
            After::PrintRepr => ask_service(
                Service::Print { obj: reply.into_value() },
                After::Discard,
            ),
            After::Format { spec } => ask_method(
                reply.into_value(),
                Method::Format,
                one_str(spec),
                After::Push,
            ),
            After::NotIn { .. } => ask_query(
                Query::BoolValue { obj: reply.into_value() },
                After::Negate,
            ),
            After::NoContains => ask_exception(
                ExceptionClass::TypeError,
                no_contains_message(&reply.into_text()),
            ),
            After::LookUp { scope, name } => if reply.into_truth() {
                ask_query(Query::ScopeItem { scope, name }, After::Push)
            } else {
                ask_query(
                    Query::ScopeHasParent { scope: scope.clone() },
                    After::Climb { scope, name },
                )
            },
            After::Climb { scope, name } => if reply.into_truth() {
                ask_query(Query::ScopeParent { scope }, After::Ascend { name })
            } else {
                ask_exception(ExceptionClass::NameError, not_defined_message(&name))
            },
            After::Ascend { name } => self.look_up(reply.into_value(), &name),
            After::DeleteName { name } => ask_method(
                reply.into_value(),
                Method::DelItem,
                one_str(name),
                After::Discard,
            ),
            After::RaiseInstance { exc } => if reply.into_truth() {
                Step::Finished(Err(exc))
            } else {
                ask_query(
                    Query::IsInstance { obj: exc.clone(), class: Class::Type },
                    After::RaiseType { exc },
                )
            },
            After::RaiseType { exc } => if reply.into_truth() {
                ask_query(
                    Query::IsSubclass { obj: exc.clone(), class: Class::BaseException },
                    After::RaiseSubclass { exc },
                )
            } else {
                ask_query(Query::Display { obj: exc }, After::RaiseInvalid)
            },
            After::RaiseSubclass { exc } => if reply.into_truth() {
                ask_service(Service::EmptyException { class: exc }, After::Throw)
            } else {
                ask_query(Query::Display { obj: exc }, After::RaiseInvalid)
            },
            After::RaiseInvalid => ask_exception(
                ExceptionClass::TypeError,
                not_an_exception_message(&reply.into_text()),
            ),
            After::UnpackSequence { size } => {
                let elements = reply.into_elements();
                if elements.len() != size {
                    ask_exception(ExceptionClass::ValueError, wrong_number_message())
                } else {
                    self.push_reversed(elements);
                    Step::Finished(Ok(None))
                }
            },
            After::UnpackEx { before, after } => self.unpack_ex(
                before,
                after,
                reply.into_elements(),
            ),
            After::Unpack => {
                self.push_reversed(reply.into_elements());
                Step::Finished(Ok(None))
            },
            After::ReturnExit { value } => self.unwind_blocks(value),
            After::LoopExit { jump } => {
                self.pop_block();
                self.unwind_loop(jump)
            },
            After::CallEntries => self.invoke_elements(named_arguments(reply.into_entries())),
            After::ImportStar => ask_query(
                Query::KeyValuePairs { obj: reply.into_value() },
                After::ImportPairs,
            ),
            After::ImportPairs => self.store_names(reversed(reply.into_pairs())),
        }
    }

    /// Goes on with the reply to what the instruction asked for.
    pub fn resume_instruction(&mut self, resume: Continuation, reply: Reply) -> (step: Step)
        requires
            model::can_resume(old(self)@, resume@, reply@),
        ensures
            (final(self)@, step@) == model::resume(old(self)@, resume@, reply@),
    {
        let reply = match reply {
            Reply::Failed(exc) => {
                return self.resume_failed(resume, exc);
            },
            reply => reply,
        };
        match resume {
            Continuation::After(after) => self.resume_after(after, reply),
            Continuation::Join { text, rest } => {
                let mut text = text;
                text.append(reply.into_text().as_str());
                self.join(text, rest)
            },
            Continuation::Gather { kind, elements, rest } => {
                let mut elements = elements;
                let mut expanded = reply.into_elements();
                elements.append(&mut expanded);
                self.gather(kind, elements, rest)
            },
            Continuation::StartSet { elements } => self.fill_set(
                reply.into_value(),
                reversed(elements),
            ),
            Continuation::FillSet { set, rest } => self.fill_set(set, rest),
            Continuation::StartMap { pairs, dicts } => self.fill_map(
                reply.into_value(),
                pairs,
                dicts,
            ),
            Continuation::FillMap { map, pairs, dicts } => self.fill_map(map, pairs, dicts),
            Continuation::MapPairs { map, dicts } => self.fill_map(
                map,
                reversed(reply.into_pairs()),
                dicts,
            ),
            Continuation::CallNames { args } => self.invoke_named(
                args,
                Vec::new(),
                reversed(reply.into_elements()),
            ),
            Continuation::CallName { args, names, rest } => {
                let mut names = names;
                names.push(reply.into_text());
                self.invoke_named(args, names, rest)
            },
            Continuation::CallElements { kwargs } => self.invoke(reply.into_elements(), kwargs),
            Continuation::UnpackFirst { first } => {
                self.push_value(reply.into_value());
                self.push_reversed(first);
                Step::Finished(Ok(None))
            },
            Continuation::ImportName { value, rest } => Step::Ask {
                request: Request::Service(
                    Service::SetAttr { obj: self.locals.clone(), name: reply.into_text(), value },
                ),
                resume: Continuation::ImportNext { rest },
            },
            Continuation::ImportNext { rest } => self.store_names(rest),
        }
    }
}

} // verus!
