//! How values are built from several others, and how functions are called.

use crate::continuation::{After, Collection, Continuation, Step};
use crate::execute::{ask_service, one};
use crate::frame::Frame;
use crate::model;
use crate::object::{PyObjectPayload, PyObjectRef};
use crate::request::{Method, Query, Request, Service};
use num_bigint::BigInt;
use vstd::prelude::*;

verus! {

/// The items from the last to the first.
pub(crate) fn reversed<T>(items: Vec<T>) -> (result: Vec<T>)
    ensures
        result@ == items@.reverse(),
{
    let mut items = items;
    let ghost all = items@;
    let mut result: Vec<T> = Vec::new();
    while items.len() > 0
        invariant
            items@.len() + result@.len() == all.len(),
            items@ == all.take(items@.len() as int),
            result@ == all.skip(items@.len() as int).reverse(),
        decreases items@.len(),
    {
        match items.pop() {
            Some(item) => {
                result.push(item);
            },
            None => {},
        }
    }
    proof {
        assert(all.skip(0) == all);
    }
    result
}

/// The bound of a slice that an object stands for.
fn slice_bound(obj: &PyObjectRef) -> (bound: Option<BigInt>)
    ensures
        bound == model::slice_bound(*obj),
{
    match &obj.payload {
        PyObjectPayload::Integer { value } => Some(value.clone()),
        _ => None,
    }
}

/// Values that lie on a stack as keys, each with its value on top, as pairs.
fn paired(values: Vec<PyObjectRef>) -> (pairs: Vec<(PyObjectRef, PyObjectRef)>)
    ensures
        pairs@ == model::paired(values@),
{
    let count: usize = values.len() / 2;
    let mut pairs: Vec<(PyObjectRef, PyObjectRef)> = Vec::new();
    while pairs.len() < count
        invariant
            count == values.len() / 2,
            pairs@.len() <= count,
            pairs@ == model::paired(values@).take(pairs@.len() as int),
        decreases count - pairs@.len(),
    {
        let i: usize = pairs.len();
        pairs.push((values[2 * i].clone(), values[2 * i + 1].clone()));
    }
    pairs
}

impl Frame {
    /// Appends the texts of `rest` to `text`, the last item first, and makes a string of them.
    pub(crate) fn join(&self, text: String, rest: Vec<PyObjectRef>) -> (step: Step)
        ensures
            step@ == model::join(self@, text@, rest@).1,
    {
        let mut rest = rest;
        match rest.pop() {
            None => Step::Ask {
                request: Request::NewStr { value: text },
                resume: Continuation::After(After::Push),
            },
            Some(obj) => Step::Ask {
                request: Request::Query(Query::StrValue { obj }),
                resume: Continuation::Join { text, rest },
            },
        }
    }

    pub(crate) fn collect(&self, kind: Collection, elements: Vec<PyObjectRef>) -> (step: Step)
        ensures
            step@ == model::collect(self@, kind, elements@).1,
    {
        match kind {
            Collection::PyList => Step::Ask {
                request: Request::NewList { elements },
                resume: Continuation::After(After::Push),
            },
            Collection::PyTuple => Step::Ask {
                request: Request::NewTuple { elements },
                resume: Continuation::After(After::Push),
            },
            Collection::PySet => Step::Ask {
                request: Request::Service(Service::NewSet),
                resume: Continuation::StartSet { elements },
            },
        }
    }

    /// Appends the elements of the sequences `rest` to `elements`, the last sequence first, and
    /// makes a collection of them.
    pub(crate) fn gather(
        &self,
        kind: Collection,
        elements: Vec<PyObjectRef>,
        rest: Vec<PyObjectRef>,
    ) -> (step: Step)
        ensures
            step@ == model::gather(self@, kind, elements@, rest@).1,
    {
        let mut rest = rest;
        match rest.pop() {
            None => self.collect(kind, elements),
            Some(obj) => Step::Ask {
                request: Request::Service(Service::ExtractElements { obj }),
                resume: Continuation::Gather { kind, elements, rest },
            },
        }
    }

    /// Builds a collection of the topmost `size` values or, where they are unpacked, of their
    /// elements.
    pub fn get_elements(&mut self, kind: Collection, size: usize, unpack: bool) -> (step: Step)
        requires
            old(self)@.stack.len() >= size,
        ensures
            (final(self)@, step@) == model::build(old(self)@, kind, size as int, unpack),
    {
        let values = self.pop_multiple(size);
        if unpack {
            self.gather(kind, Vec::new(), reversed(values))
        } else {
            self.collect(kind, values)
        }
    }

    /// Puts the items `rest` into the set, the last one first, and pushes it.
    pub(crate) fn fill_set(&mut self, set: PyObjectRef, rest: Vec<PyObjectRef>) -> (step: Step)
        ensures
            (final(self)@, step@) == model::fill_set(old(self)@, set, rest@),
    {
        let mut rest = rest;
        match rest.pop() {
            None => {
                self.push_value(set);
                Step::Finished(Ok(None))
            },
            Some(item) => Step::Ask {
                request: Request::CallMethod {
                    obj: set.clone(),
                    method: Method::Add,
                    args: one(item),
                },
                resume: Continuation::FillSet { set, rest },
            },
        }
    }

    /// Puts the entries `pairs` and those of `dicts` into the dict, the last one first, and
    /// pushes it.
    pub(crate) fn fill_map(
        &mut self,
        map: PyObjectRef,
        pairs: Vec<(PyObjectRef, PyObjectRef)>,
        dicts: Vec<PyObjectRef>,
    ) -> (step: Step)
        ensures
            (final(self)@, step@) == model::fill_map(old(self)@, map, pairs@, dicts@),
    {
        let mut pairs = pairs;
        let mut dicts = dicts;
        match pairs.pop() {
            Some((key, value)) => Step::Ask {
                request: Request::Service(Service::SetItem { map: map.clone(), key, value }),
                resume: Continuation::FillMap { map, pairs, dicts },
            },
            None => match dicts.pop() {
                Some(obj) => Step::Ask {
                    request: Request::Query(Query::DictPairs { obj }),
                    resume: Continuation::MapPairs { map, dicts },
                },
                None => {
                    self.push_value(map);
                    Step::Finished(Ok(None))
                },
            },
        }
    }

    /// Builds a dict of the topmost `size` entries or, where they are unpacked, dicts.
    pub(crate) fn build_map(&mut self, size: usize, unpack: bool) -> (step: Step)
        requires
            (if unpack {
                size as int
            } else {
                2 * size
            }) <= old(self)@.stack.len(),
        ensures
            (final(self)@, step@) == model::build_map(old(self)@, size as int, unpack),
    {
        let resume = if unpack {
            let dicts = self.pop_multiple(size);
            Continuation::StartMap { pairs: Vec::new(), dicts }
        } else {
            assert(self.stack.len() >= 2 * size);
            let pairs = paired(self.pop_multiple(2 * size));
            Continuation::StartMap { pairs, dicts: Vec::new() }
        };
        Step::Ask { request: Request::Service(Service::NewDict), resume }
    }

    /// Builds a slice of the topmost values.
    pub(crate) fn build_slice(&mut self, size: usize) -> (step: Step)
        requires
            size == 2 || size == 3,
            size <= old(self)@.stack.len(),
        ensures
            (final(self)@, step@) == model::build_slice(old(self)@, size as int),
    {
        let values = self.pop_multiple(size);
        let start = slice_bound(&values[0]);
        let stop = slice_bound(&values[1]);
        let step = if values.len() == 3 {
            slice_bound(&values[2])
        } else {
            None
        };
        ask_service(Service::NewSlice { start, stop, step }, After::Push)
    }

    /// Stores the names of an imported module, the last one first.
    pub(crate) fn store_names(&self, rest: Vec<(PyObjectRef, PyObjectRef)>) -> (step: Step)
        ensures
            step@ == model::store_names(self@, rest@).1,
    {
        let mut rest = rest;
        match rest.pop() {
            None => Step::Finished(Ok(None)),
            Some((key, value)) => Step::Ask {
                request: Request::Query(Query::StrValue { obj: key }),
                resume: Continuation::ImportName { value, rest },
            },
        }
    }

    /// Calls what lies on top of the stack.
    pub(crate) fn invoke(
        &mut self,
        args: Vec<PyObjectRef>,
        kwargs: Vec<(String, PyObjectRef)>,
    ) -> (step: Step)
        requires
            old(self)@.stack.len() >= 1,
        ensures
            (final(self)@, step@) == model::invoke(old(self)@, args@, kwargs@),
    {
        let func = self.pop_value();
        Step::Ask {
            request: Request::Invoke { func, args, kwargs },
            resume: Continuation::After(After::Push),
        }
    }

    /// Reads the names `rest`, the last one first, and then calls what lies on top of the stack.
    pub(crate) fn invoke_named(
        &mut self,
        args: Vec<PyObjectRef>,
        names: Vec<String>,
        rest: Vec<PyObjectRef>,
    ) -> (step: Step)
        requires
            rest@.len() == 0 ==> old(self)@.stack.len() >= 1,
        ensures
            (final(self)@, step@) == model::invoke_named(old(self)@, args@, names@, rest@),
    {
        let mut rest = rest;
        match rest.pop() {
            None => {
                let func = self.pop_value();
                Step::Ask {
                    request: Request::InvokeNamed { func, args, names },
                    resume: Continuation::After(After::Push),
                }
            },
            Some(obj) => Step::Ask {
                request: Request::Query(Query::StrValue { obj }),
                resume: Continuation::CallName { args, names, rest },
            },
        }
    }

    /// Takes the arguments of a call from the sequence on top of the stack.
    pub(crate) fn invoke_elements(&mut self, kwargs: Vec<(String, PyObjectRef)>) -> (step: Step)
        requires
            old(self)@.stack.len() >= 1,
        ensures
            (final(self)@, step@) == model::invoke_elements(old(self)@, kwargs@),
    {
        let obj = self.pop_value();
        Step::Ask {
            request: Request::Service(Service::ExtractElements { obj }),
            resume: Continuation::CallElements { kwargs },
        }
    }
}

} // verus!
