//! What instructions build from several values, and which arguments functions are called with.

use crate::bytecode::{CallType, Instruction};
use crate::continuation::Collection;
use crate::conversation::{
    add_requests, asked, build_collects_elements, build_map_sets_each_entry,
    build_map_unpacks_dicts, build_set_adds_each_element, build_string_joins_texts, can_hear,
    dict_replies, dict_requests, done_replies, element_replies, element_requests, hear,
    import_replies, import_requests, import_star_stores_each_name, joined,
    keyword_call_reads_names, set_item_requests, text_replies, text_requests, value_replies,
};
use crate::effects::{
    answered, asks, fetches, leads, makes, over, raised, value_at, with_value, without,
};
use crate::frame::FrameView;
use crate::model;
use crate::model::Outcome;
use crate::object::PyObjectRef;
use crate::request::{Query, ReplyView, RequestView, Service};
use vstd::prelude::*;

verus! {

/// The topmost `count` values in the order in which they were pushed.
pub open spec fn topmost(f: FrameView, count: int) -> Seq<PyObjectRef> {
    Seq::new(count as nat, |i: int| f.stack[f.stack.len() - count + i])
}

proof fn lemma_topmost(f: FrameView, count: int)
    requires
        0 <= count <= f.stack.len(),
    ensures
        topmost(f, count) == f.top_values(count),
{
    assert(topmost(f, count) == f.top_values(count));
}

/// A string is made of the texts of the topmost `size` values, in the order in which they were
/// pushed, and takes their place.
pub proof fn string_is_made_of_texts(
    f: FrameView,
    size: usize,
    texts: Seq<String>,
    value: PyObjectRef,
    directory: String,
)
    ensures
        model::can_execute(f, Instruction::BuildString { size }) <==> size <= f.stack.len(),
        size <= f.stack.len() && texts.len() == size ==> ({
            let o = model::execute(f, Instruction::BuildString { size }, directory);
            &&& asked(o, text_replies(texts)) == text_requests(topmost(f, size as int))
            &&& hear(o, text_replies(texts)) is Some
            &&& makes(
                hear(o, text_replies(texts))->0,
                without(f, size as int),
                RequestView::NewStr { value: joined(texts) },
                value,
            )
        }),
{
    if size <= f.stack.len() && texts.len() == size {
        lemma_topmost(f, size as int);
        build_string_joins_texts(f, size, texts, directory);
    }
}

/// The instruction that builds a collection.
pub open spec fn building(kind: Collection, size: usize, unpack: bool) -> Instruction {
    match kind {
        Collection::PyList => Instruction::BuildList { size, unpack },
        Collection::PyTuple => Instruction::BuildTuple { size, unpack },
        Collection::PySet => Instruction::BuildSet { size, unpack },
    }
}

/// Whether a collection of `elements`, in their order, is made and pushed. A set is made empty and
/// gets them one after the other.
pub open spec fn is_made_of(
    o: Outcome,
    f: FrameView,
    kind: Collection,
    elements: Seq<PyObjectRef>,
    value: PyObjectRef,
    answers: Seq<PyObjectRef>,
) -> bool {
    match kind {
        Collection::PyList => makes(o, f, RequestView::NewList { elements }, value),
        Collection::PyTuple => makes(o, f, RequestView::NewTuple { elements }, value),
        Collection::PySet => {
            let replies = seq![ReplyView::Value(value)] + value_replies(answers);
            &&& o.0 == f
            &&& answers.len() == elements.len() ==> {
                &&& asked(o, replies) == seq![RequestView::Service(Service::NewSet)]
                    + add_requests(value, elements)
                &&& hear(o, replies) == Some(over(with_value(f, value)))
            }
        },
    }
}

/// A list, a tuple or a set is made of the topmost `size` values, in the order in which they were
/// pushed, and takes their place.
pub proof fn collection_is_made_of_values(
    f: FrameView,
    kind: Collection,
    size: usize,
    value: PyObjectRef,
    answers: Seq<PyObjectRef>,
    directory: String,
)
    ensures
        model::can_execute(f, building(kind, size, false)) <==> size <= f.stack.len(),
        size <= f.stack.len() ==> is_made_of(
            model::execute(f, building(kind, size, false), directory),
            without(f, size as int),
            kind,
            topmost(f, size as int),
            value,
            answers,
        ),
{
    if size <= f.stack.len() {
        let elements = topmost(f, size as int);
        lemma_topmost(f, size as int);
        if kind == Collection::PySet && answers.len() == elements.len() {
            build_set_adds_each_element(f.drop(size as int), elements, value, answers);
        }
    }
}

/// Where values are unpacked, the collection is made of their elements, in the order in which the
/// values were pushed and within each value in its own order.
pub proof fn collection_is_made_of_elements(
    f: FrameView,
    kind: Collection,
    size: usize,
    lists: Seq<Seq<PyObjectRef>>,
    value: PyObjectRef,
    answers: Seq<PyObjectRef>,
    directory: String,
)
    ensures
        model::can_execute(f, building(kind, size, true)) <==> size <= f.stack.len(),
        size <= f.stack.len() && lists.len() == size ==> ({
            let o = model::execute(f, building(kind, size, true), directory);
            &&& asked(o, element_replies(lists)) == element_requests(topmost(f, size as int))
            &&& hear(o, element_replies(lists)) is Some
            &&& is_made_of(
                hear(o, element_replies(lists))->0,
                without(f, size as int),
                kind,
                lists.flatten(),
                value,
                answers,
            )
        }),
{
    if size <= f.stack.len() && lists.len() == size {
        lemma_topmost(f, size as int);
        build_collects_elements(f, kind, size, lists);
        if kind == Collection::PySet && answers.len() == lists.flatten().len() {
            build_set_adds_each_element(f.drop(size as int), lists.flatten(), value, answers);
        }
    }
}

/// The topmost `size` entries, each a key with its value on top, the one that was pushed last
/// first.
pub open spec fn entries(f: FrameView, size: int) -> Seq<(PyObjectRef, PyObjectRef)> {
    Seq::new(size as nat, |i: int| (value_at(f, 2 * i + 1), value_at(f, 2 * i)))
}

/// A dict is made empty, gets the topmost `size` entries, the one that was pushed last first, and
/// takes their place.
pub proof fn dict_is_made_of_entries(
    f: FrameView,
    size: usize,
    map: PyObjectRef,
    directory: String,
)
    ensures
        model::can_execute(f, Instruction::BuildMap { size, unpack: false }) <==> 2 * size
            <= f.stack.len(),
        2 * size <= f.stack.len() ==> ({
            let o = model::execute(f, Instruction::BuildMap { size, unpack: false }, directory);
            let replies = seq![ReplyView::Value(map)] + done_replies(size as nat);
            &&& o.0 == without(f, 2 * size)
            &&& hear(o, replies) == Some(over(with_value(without(f, 2 * size), map)))
            &&& asked(o, replies) == seq![RequestView::Service(Service::NewDict)]
                + set_item_requests(map, entries(f, size as int))
        }),
{
    if 2 * size <= f.stack.len() {
        build_map_sets_each_entry(f, size, map, directory);
        assert(model::paired(f.top_values(2 * size)).reverse() == entries(f, size as int));
    }
}

/// For each dict: its entries are asked for and put in, in their order.
pub open spec fn merge_requests(
    map: PyObjectRef,
    dicts: Seq<PyObjectRef>,
    contents: Seq<Seq<(PyObjectRef, PyObjectRef)>>,
) -> Seq<RequestView>
    decreases contents.len(),
{
    if contents.len() == 0 {
        seq![]
    } else {
        seq![RequestView::Query(Query::DictPairs { obj: dicts.first() })] + set_item_requests(
            map,
            contents.first(),
        ) + merge_requests(map, dicts.drop_first(), contents.drop_first())
    }
}

proof fn lemma_merge_requests(
    map: PyObjectRef,
    dicts: Seq<PyObjectRef>,
    contents: Seq<Seq<(PyObjectRef, PyObjectRef)>>,
)
    requires
        dicts.len() == contents.len(),
    ensures
        dict_requests(map, dicts, contents) == merge_requests(
            map,
            dicts.reverse(),
            contents,
        ),
    decreases contents.len(),
{
    if contents.len() > 0 {
        lemma_merge_requests(map, dicts.drop_last(), contents.drop_first());
        assert(dicts.reverse().drop_first() == dicts.drop_last().reverse());
    }
}

/// A dict of unpacked dicts is made empty, gets the entries of each of the topmost `size` dicts,
/// those of the one that was pushed last first, and takes their place.
pub proof fn dict_is_made_of_dicts(
    f: FrameView,
    size: usize,
    map: PyObjectRef,
    contents: Seq<Seq<(PyObjectRef, PyObjectRef)>>,
    directory: String,
)
    ensures
        model::can_execute(f, Instruction::BuildMap { size, unpack: true }) <==> size
            <= f.stack.len(),
        size <= f.stack.len() && contents.len() == size ==> ({
            let o = model::execute(f, Instruction::BuildMap { size, unpack: true }, directory);
            let replies = seq![ReplyView::Value(map)] + dict_replies(contents);
            &&& o.0 == without(f, size as int)
            &&& hear(o, replies) == Some(over(with_value(without(f, size as int), map)))
            &&& asked(o, replies) == seq![RequestView::Service(Service::NewDict)]
                + merge_requests(map, topmost(f, size as int).reverse(), contents)
        }),
{
    if size <= f.stack.len() && contents.len() == size {
        lemma_topmost(f, size as int);
        build_map_unpacks_dicts(f, size, map, contents, directory);
        lemma_merge_requests(map, topmost(f, size as int), contents);
    }
}

// Calls.

/// A call passes the topmost `count` values, in the order in which they were pushed, to the
/// function below them. What it gives takes their place and that of the function.
pub proof fn positional_call_passes_values(
    f: FrameView,
    count: usize,
    value: PyObjectRef,
    exc: PyObjectRef,
    directory: String,
)
    ensures
        ({
            let call = Instruction::CallFunction { typ: CallType::Positional(count) };
            &&& model::can_execute(f, call) <==> count < f.stack.len()
            &&& count < f.stack.len() ==> fetches(
                model::execute(f, call, directory),
                without(f, count + 1),
                RequestView::Invoke {
                    func: value_at(f, count as int),
                    args: topmost(f, count as int),
                    kwargs: seq![],
                },
                value,
                exc,
            )
        }),
{
    if count < f.stack.len() {
        let n = f.stack.len();
        lemma_topmost(f, count as int);
        assert(f.stack.take(n - count).take(n - count - 1) == f.stack.take(n - count - 1));
    }
}

/// A call with named arguments reads the names from the topmost value, in their order, and passes
/// the `count` values below it, in the order in which they were pushed, with the names to the
/// function below them.
pub proof fn keyword_call_passes_values_and_names(
    f: FrameView,
    count: usize,
    objs: Seq<PyObjectRef>,
    names: Seq<String>,
    value: PyObjectRef,
    exc: PyObjectRef,
    directory: String,
)
    ensures
        ({
            let call = Instruction::CallFunction { typ: CallType::Keyword(count) };
            let o = model::execute(f, call, directory);
            let replies = seq![ReplyView::Elements(objs)] + text_replies(names);
            &&& model::can_execute(f, call) <==> count < f.stack.len()
            &&& count < f.stack.len() ==> {
                &&& asks(
                    o,
                    without(f, count + 1),
                    RequestView::Service(Service::ExtractElements { obj: value_at(f, 0) }),
                )
                &&& leads(o, ReplyView::Failed(exc), raised(without(f, count + 1), exc))
            }
            &&& count + 2 <= f.stack.len() && names.len() == objs.len() ==> {
                &&& asked(o, replies) == seq![
                    RequestView::Service(Service::ExtractElements { obj: value_at(f, 0) }),
                ] + text_requests(objs)
                &&& hear(o, replies) is Some
                &&& fetches(
                    hear(o, replies)->0,
                    without(f, count + 2),
                    RequestView::InvokeNamed {
                        func: value_at(f, count + 1),
                        args: topmost(without(f, 1), count as int),
                        names,
                    },
                    value,
                    exc,
                )
            }
        }),
{
    let n = f.stack.len();
    if count < n {
        lemma_topmost(without(f, 1), count as int);
        assert(f.stack.take(n - 1).take(n - 1 - count) == f.stack.take(n - count - 1));
    }
    if count + 2 <= n && names.len() == objs.len() {
        keyword_call_reads_names(f, count, objs, names, directory);
    }
}

/// A call of the kind `f(*args)` passes the elements of the topmost value, in their order, to the
/// function below it; nothing is passed by name.
pub proof fn unpacking_call_passes_elements(
    f: FrameView,
    elements: Seq<PyObjectRef>,
    value: PyObjectRef,
    exc: PyObjectRef,
    directory: String,
)
    ensures
        ({
            let call = Instruction::CallFunction { typ: CallType::Ex(false) };
            let o = model::execute(f, call, directory);
            let p = answered(o, ReplyView::Elements(elements));
            &&& model::can_execute(f, call) <==> f.stack.len() >= 1
            &&& f.stack.len() >= 1 ==> {
                &&& asks(
                    o,
                    without(f, 1),
                    RequestView::Service(Service::ExtractElements { obj: value_at(f, 0) }),
                )
                &&& leads(o, ReplyView::Failed(exc), raised(without(f, 1), exc))
            }
            &&& f.stack.len() >= 2 ==> {
                &&& can_hear(o, ReplyView::Elements(elements))
                &&& p.0 == without(f, 2)
                &&& p.1 is Ask
                &&& p.1->request matches RequestView::Invoke { func, args, kwargs }
                &&& func == value_at(f, 1)
                &&& args.len() == elements.len()
                &&& forall|i: int| 0 <= i < elements.len() ==> #[trigger] args[i] == elements[i]
                &&& kwargs.len() == 0
                &&& leads(p, ReplyView::Value(value), over(with_value(without(f, 2), value)))
                &&& leads(p, ReplyView::Failed(exc), raised(without(f, 2), exc))
            }
        }),
{
    let n = f.stack.len();
    if n >= 2 {
        assert(f.stack.take(n - 1).take(n - 2) == f.stack.take(n - 2));
    }
}

/// A call of the kind `f(*args, **kwargs)` reads the entries of the topmost value and passes each
/// value by the text of its key, in their order; the elements of the value below are passed, in
/// their order, to the function below that.
pub proof fn unpacking_call_passes_entries(
    f: FrameView,
    named: Seq<(String, (PyObjectRef, PyObjectRef))>,
    elements: Seq<PyObjectRef>,
    value: PyObjectRef,
    exc: PyObjectRef,
    directory: String,
)
    ensures
        ({
            let call = Instruction::CallFunction { typ: CallType::Ex(true) };
            let o = model::execute(f, call, directory);
            let p = answered(o, ReplyView::Entries(named));
            let q = answered(p, ReplyView::Elements(elements));
            &&& model::can_execute(f, call) <==> f.stack.len() >= 1
            &&& f.stack.len() >= 1 ==> asks(
                o,
                without(f, 1),
                RequestView::Query(Query::DictEntries { obj: value_at(f, 0) }),
            )
            &&& f.stack.len() >= 2 ==> {
                &&& can_hear(o, ReplyView::Entries(named))
                &&& asks(
                    p,
                    without(f, 2),
                    RequestView::Service(Service::ExtractElements { obj: value_at(f, 1) }),
                )
                &&& leads(p, ReplyView::Failed(exc), raised(without(f, 2), exc))
            }
            &&& f.stack.len() >= 3 ==> {
                &&& can_hear(p, ReplyView::Elements(elements))
                &&& q.0 == without(f, 3)
                &&& q.1 is Ask
                &&& q.1->request matches RequestView::Invoke { func, args, kwargs }
                &&& func == value_at(f, 2)
                &&& args.len() == elements.len()
                &&& forall|i: int| 0 <= i < elements.len() ==> #[trigger] args[i] == elements[i]
                &&& kwargs.len() == named.len()
                &&& forall|i: int|
                    0 <= i < named.len() ==> (#[trigger] kwargs[i]).0 == named[i].0 && kwargs[i].1
                        == named[i].1.1
                &&& leads(q, ReplyView::Value(value), over(with_value(without(f, 3), value)))
                &&& leads(q, ReplyView::Failed(exc), raised(without(f, 3), exc))
            }
        }),
{
    let n = f.stack.len();
    if n >= 2 {
        assert(f.stack.take(n - 1).take(n - 2) == f.stack.take(n - 2));
    }
    if n >= 3 {
        assert(f.stack.take(n - 2).take(n - 3) == f.stack.take(n - 3));
    }
}

// Importing all names.

/// Importing all names of a module asks for the module from the directory, for its names with
/// their values, and stores each value under the text of its name in the scope of the frame, which
/// stays as it is.
pub proof fn all_names_are_imported(
    f: FrameView,
    module: String,
    obj: PyObjectRef,
    pairs: Seq<(PyObjectRef, PyObjectRef)>,
    names: Seq<String>,
    directory: String,
)
    requires
        names.len() == pairs.len(),
    ensures
        ({
            let o = model::execute(f, Instruction::ImportStar { name: module }, directory);
            let replies = seq![ReplyView::Value(obj), ReplyView::Pairs(pairs)] + import_replies(
                names,
            );
            &&& hear(o, replies) == Some(over(f))
            &&& asked(o, replies) == seq![
                RequestView::Service(Service::ImportModule { path: directory, module }),
                RequestView::Query(Query::KeyValuePairs { obj }),
            ] + import_requests(f.locals, pairs, names)
        }),
{
    import_star_stores_each_name(f, module, obj, pairs, names, directory);
}

} // verus!
