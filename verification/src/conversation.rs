//! What instructions come to that ask the virtual machine for several things.
//!
//! The laws here speak of all the replies that an instruction gets, one after the other, and of
//! all the requests that it makes.

use crate::bytecode::{CallType, Instruction};
use crate::continuation::{After, Collection, ContinuationView};
use crate::frame::FrameView;
use crate::model;
use crate::model::Outcome;
use crate::object::PyObjectRef;
use crate::request::{
    Class, ExceptionClass, Method, Operand, Query, ReplyView, RequestView, Service,
};
use crate::text::{not_an_exception, not_defined};
use vstd::prelude::*;

verus! {

/// Whether an instruction waits for a reply and can go on with this one.
pub open spec fn can_hear(o: Outcome, reply: ReplyView) -> bool {
    o.1 is Ask && model::can_resume(o.0, o.1->resume, reply)
}

/// What an instruction comes to after it got the replies, one after the other; `None` where it
/// cannot go on with one of them.
pub open spec fn hear(o: Outcome, replies: Seq<ReplyView>) -> Option<Outcome>
    decreases replies.len(),
{
    if replies.len() == 0 {
        Some(o)
    } else if can_hear(o, replies.first()) {
        hear(model::resume(o.0, o.1->resume, replies.first()), replies.drop_first())
    } else {
        None
    }
}

/// The requests that these replies are to.
pub open spec fn asked(o: Outcome, replies: Seq<ReplyView>) -> Seq<RequestView>
    decreases replies.len(),
{
    if replies.len() == 0 {
        seq![]
    } else {
        seq![o.1->request] + asked(
            model::resume(o.0, o.1->resume, replies.first()),
            replies.drop_first(),
        )
    }
}

/// After one reply and more, an instruction comes to what it comes to after the others once it
/// got the first.
pub proof fn lemma_hear_first(o: Outcome, first: ReplyView, rest: Seq<ReplyView>)
    requires
        can_hear(o, first),
    ensures
        hear(o, seq![first] + rest) == hear(model::resume(o.0, o.1->resume, first), rest),
        asked(o, seq![first] + rest) == seq![o.1->request] + asked(
            model::resume(o.0, o.1->resume, first),
            rest,
        ),
{
    assert((seq![first] + rest).drop_first() == rest);
}

/// Replies can be heard in two parts.
proof fn lemma_hear_parts(o: Outcome, first: Seq<ReplyView>, rest: Seq<ReplyView>)
    requires
        hear(o, first) is Some,
    ensures
        hear(o, first + rest) == hear(hear(o, first)->0, rest),
        asked(o, first + rest) == asked(o, first) + asked(hear(o, first)->0, rest),
    decreases first.len(),
{
    if first.len() == 0 {
        assert(first + rest == rest);
        assert(asked(o, first) + asked(o, rest) == asked(o, rest));
    } else {
        let next = model::resume(o.0, o.1->resume, first.first());
        lemma_hear_parts(next, first.drop_first(), rest);
        assert((first + rest).drop_first() == first.drop_first() + rest);
        assert(asked(o, first + rest) == asked(o, first) + asked(hear(o, first)->0, rest));
    }
}

// Strings.

/// The texts one behind the other.
pub open spec fn joined(texts: Seq<String>) -> Seq<char>
    decreases texts.len(),
{
    if texts.len() == 0 {
        seq![]
    } else {
        texts.first()@ + joined(texts.drop_first())
    }
}

pub open spec fn text_replies(texts: Seq<String>) -> Seq<ReplyView> {
    texts.map_values(|text: String| ReplyView::Text(text))
}

/// The texts of the objects are asked for.
pub open spec fn text_requests(objs: Seq<PyObjectRef>) -> Seq<RequestView> {
    objs.map_values(|obj: PyObjectRef| RequestView::Query(Query::StrValue { obj }))
}

proof fn lemma_join(f: FrameView, text: Seq<char>, rest: Seq<PyObjectRef>, texts: Seq<String>)
    requires
        texts.len() == rest.len(),
    ensures
        hear(model::join(f, text, rest), text_replies(texts)) == Some(
            model::join(f, text + joined(texts), seq![]),
        ),
        asked(model::join(f, text, rest), text_replies(texts)) == text_requests(rest.reverse()),
    decreases rest.len(),
{
    let o = model::join(f, text, rest);
    if rest.len() == 0 {
        assert(text + joined(texts) == text);
        assert(rest == Seq::<PyObjectRef>::empty());
        assert(text_requests(rest.reverse()) == Seq::<RequestView>::empty());
    } else {
        let next = text + texts.first()@;
        lemma_join(f, next, rest.drop_last(), texts.drop_first());
        assert(text_replies(texts) == seq![ReplyView::Text(texts.first())] + text_replies(
            texts.drop_first(),
        ));
        lemma_hear_first(o, ReplyView::Text(texts.first()), text_replies(texts.drop_first()));
        assert(next + joined(texts.drop_first()) == text + joined(texts));
        assert(text_requests(rest.reverse()) == seq![o.1->request] + text_requests(
            rest.drop_last().reverse(),
        ));
    }
}

/// A string is built of the texts of the topmost values, in the order in which they were pushed.
pub proof fn build_string_joins_texts(
    f: FrameView,
    size: usize,
    texts: Seq<String>,
    directory: String,
)
    requires
        size <= f.stack.len(),
        texts.len() == size,
    ensures
        ({
            let o = model::execute(f, Instruction::BuildString { size }, directory);
            &&& asked(o, text_replies(texts)) == text_requests(f.top_values(size as int))
            &&& hear(o, text_replies(texts)) == Some(
                model::ask(
                    f.drop(size as int),
                    RequestView::NewStr { value: joined(texts) },
                    ContinuationView::After(After::Push),
                ),
            )
        }),
{
    let values = f.top_values(size as int);
    lemma_join(f.drop(size as int), seq![], values.reverse(), texts);
    assert(values.reverse().reverse() == values);
    assert(Seq::<char>::empty() + joined(texts) == joined(texts));
}

// Collections.

pub open spec fn element_replies(lists: Seq<Seq<PyObjectRef>>) -> Seq<ReplyView> {
    lists.map_values(|elements: Seq<PyObjectRef>| ReplyView::Elements(elements))
}

/// The elements of the objects are asked for.
pub open spec fn element_requests(objs: Seq<PyObjectRef>) -> Seq<RequestView> {
    objs.map_values(|obj: PyObjectRef| RequestView::Service(Service::ExtractElements { obj }))
}

proof fn lemma_gather(
    f: FrameView,
    kind: Collection,
    elements: Seq<PyObjectRef>,
    rest: Seq<PyObjectRef>,
    lists: Seq<Seq<PyObjectRef>>,
)
    requires
        lists.len() == rest.len(),
    ensures
        hear(model::gather(f, kind, elements, rest), element_replies(lists)) == Some(
            model::collect(f, kind, elements + lists.flatten()),
        ),
        asked(model::gather(f, kind, elements, rest), element_replies(lists)) == element_requests(
            rest.reverse(),
        ),
    decreases rest.len(),
{
    let o = model::gather(f, kind, elements, rest);
    if rest.len() == 0 {
        assert(elements + lists.flatten() == elements);
        assert(element_requests(rest.reverse()) == Seq::<RequestView>::empty());
    } else {
        let next = elements + lists.first();
        lemma_gather(f, kind, next, rest.drop_last(), lists.drop_first());
        assert(element_replies(lists) == seq![ReplyView::Elements(lists.first())]
            + element_replies(lists.drop_first()));
        lemma_hear_first(
            o,
            ReplyView::Elements(lists.first()),
            element_replies(lists.drop_first()),
        );
        assert(next + lists.drop_first().flatten() == elements + lists.flatten());
        assert(element_requests(rest.reverse()) == seq![o.1->request] + element_requests(
            rest.drop_last().reverse(),
        ));
    }
}

/// A collection of unpacked values holds their elements, in the order in which the values were
/// pushed. One of values that are not unpacked holds the values in that order.
pub proof fn build_collects_elements(
    f: FrameView,
    kind: Collection,
    size: usize,
    lists: Seq<Seq<PyObjectRef>>,
)
    requires
        size <= f.stack.len(),
        lists.len() == size,
    ensures
        asked(model::build(f, kind, size as int, true), element_replies(lists))
            == element_requests(f.top_values(size as int)),
        hear(model::build(f, kind, size as int, true), element_replies(lists)) == Some(
            model::collect(f.drop(size as int), kind, lists.flatten()),
        ),
        model::build(f, kind, size as int, false) == model::collect(
            f.drop(size as int),
            kind,
            f.top_values(size as int),
        ),
{
    let values = f.top_values(size as int);
    lemma_gather(f.drop(size as int), kind, seq![], values.reverse(), lists);
    assert(values.reverse().reverse() == values);
    assert(Seq::<PyObjectRef>::empty() + lists.flatten() == lists.flatten());
}

pub open spec fn value_replies(values: Seq<PyObjectRef>) -> Seq<ReplyView> {
    values.map_values(|value: PyObjectRef| ReplyView::Value(value))
}

/// The items are put into a set.
pub open spec fn add_requests(set: PyObjectRef, items: Seq<PyObjectRef>) -> Seq<RequestView> {
    items.map_values(
        |item: PyObjectRef|
            RequestView::CallMethod {
                obj: set,
                method: Method::Add,
                args: seq![Operand::Object(item)],
            },
    )
}

proof fn lemma_fill_set(
    f: FrameView,
    set: PyObjectRef,
    rest: Seq<PyObjectRef>,
    answers: Seq<PyObjectRef>,
)
    requires
        answers.len() == rest.len(),
    ensures
        hear(model::fill_set(f, set, rest), value_replies(answers)) == Some(
            model::go_on(f.push(set)),
        ),
        asked(model::fill_set(f, set, rest), value_replies(answers)) == add_requests(
            set,
            rest.reverse(),
        ),
    decreases rest.len(),
{
    let o = model::fill_set(f, set, rest);
    if rest.len() == 0 {
        assert(add_requests(set, rest.reverse()) == Seq::<RequestView>::empty());
    } else {
        lemma_fill_set(f, set, rest.drop_last(), answers.drop_first());
        assert(value_replies(answers) == seq![ReplyView::Value(answers.first())] + value_replies(
            answers.drop_first(),
        ));
        lemma_hear_first(
            o,
            ReplyView::Value(answers.first()),
            value_replies(answers.drop_first()),
        );
        assert(add_requests(set, rest.reverse()) == seq![o.1->request] + add_requests(
            set,
            rest.drop_last().reverse(),
        ));
    }
}

/// A set gets its elements one after the other, in order, and is pushed when it has all.
pub proof fn build_set_adds_each_element(
    f: FrameView,
    elements: Seq<PyObjectRef>,
    set: PyObjectRef,
    answers: Seq<PyObjectRef>,
)
    requires
        answers.len() == elements.len(),
    ensures
        ({
            let o = model::collect(f, Collection::PySet, elements);
            let replies = seq![ReplyView::Value(set)] + value_replies(answers);
            &&& hear(o, replies) == Some(model::go_on(f.push(set)))
            &&& asked(o, replies) == seq![RequestView::Service(Service::NewSet)] + add_requests(
                set,
                elements,
            )
        }),
{
    let o = model::collect(f, Collection::PySet, elements);
    lemma_hear_first(o, ReplyView::Value(set), value_replies(answers));
    lemma_fill_set(f, set, elements.reverse(), answers);
    assert(elements.reverse().reverse() == elements);
}

// Dicts.

pub open spec fn done_replies(count: nat) -> Seq<ReplyView> {
    Seq::new(count, |i: int| ReplyView::Done)
}

/// The entries are put into a dict.
pub open spec fn set_item_requests(
    map: PyObjectRef,
    pairs: Seq<(PyObjectRef, PyObjectRef)>,
) -> Seq<RequestView> {
    pairs.map_values(
        |pair: (PyObjectRef, PyObjectRef)|
            RequestView::Service(Service::SetItem { map, key: pair.0, value: pair.1 }),
    )
}

proof fn lemma_fill_map(
    f: FrameView,
    map: PyObjectRef,
    pairs: Seq<(PyObjectRef, PyObjectRef)>,
    dicts: Seq<PyObjectRef>,
)
    ensures
        hear(model::fill_map(f, map, pairs, dicts), done_replies(pairs.len())) == Some(
            model::fill_map(f, map, seq![], dicts),
        ),
        asked(model::fill_map(f, map, pairs, dicts), done_replies(pairs.len()))
            == set_item_requests(map, pairs.reverse()),
    decreases pairs.len(),
{
    let o = model::fill_map(f, map, pairs, dicts);
    if pairs.len() == 0 {
        assert(pairs == Seq::<(PyObjectRef, PyObjectRef)>::empty());
        assert(set_item_requests(map, pairs.reverse()) == Seq::<RequestView>::empty());
    } else {
        let rest = done_replies((pairs.len() - 1) as nat);
        lemma_fill_map(f, map, pairs.drop_last(), dicts);
        assert(done_replies(pairs.len()) == seq![ReplyView::Done] + rest);
        lemma_hear_first(o, ReplyView::Done, rest);
        assert(set_item_requests(map, pairs.reverse()) == seq![o.1->request] + set_item_requests(
            map,
            pairs.drop_last().reverse(),
        ));
    }
}

/// A dict gets the topmost entries, that which was pushed last first, and is pushed when it has
/// all.
pub proof fn build_map_sets_each_entry(
    f: FrameView,
    size: usize,
    map: PyObjectRef,
    directory: String,
)
    requires
        2 * size <= f.stack.len(),
    ensures
        ({
            let o = model::execute(f, Instruction::BuildMap { size, unpack: false }, directory);
            let replies = seq![ReplyView::Value(map)] + done_replies(size as nat);
            let pairs = model::paired(f.top_values(2 * size));
            &&& pairs.len() == size
            &&& hear(o, replies) == Some(model::go_on(f.drop(2 * size).push(map)))
            &&& asked(o, replies) == seq![RequestView::Service(Service::NewDict)]
                + set_item_requests(map, pairs.reverse())
        }),
{
    let o = model::execute(f, Instruction::BuildMap { size, unpack: false }, directory);
    let pairs = model::paired(f.top_values(2 * size));
    lemma_hear_first(o, ReplyView::Value(map), done_replies(size as nat));
    lemma_fill_map(f.drop(2 * size), map, pairs, seq![]);
}

/// For each dict, the one that was pushed last first: its entries, and that each is put in.
pub open spec fn dict_replies(
    contents: Seq<Seq<(PyObjectRef, PyObjectRef)>>,
) -> Seq<ReplyView>
    decreases contents.len(),
{
    if contents.len() == 0 {
        seq![]
    } else {
        seq![ReplyView::Pairs(contents.first())] + done_replies(contents.first().len())
            + dict_replies(contents.drop_first())
    }
}

/// For each dict, the one that was pushed last first: its entries are asked for and put in.
pub open spec fn dict_requests(
    map: PyObjectRef,
    dicts: Seq<PyObjectRef>,
    contents: Seq<Seq<(PyObjectRef, PyObjectRef)>>,
) -> Seq<RequestView>
    decreases contents.len(),
{
    if contents.len() == 0 {
        seq![]
    } else {
        seq![RequestView::Query(Query::DictPairs { obj: dicts.last() })] + set_item_requests(
            map,
            contents.first(),
        ) + dict_requests(map, dicts.drop_last(), contents.drop_first())
    }
}

proof fn lemma_fill_from_dicts(
    f: FrameView,
    map: PyObjectRef,
    dicts: Seq<PyObjectRef>,
    contents: Seq<Seq<(PyObjectRef, PyObjectRef)>>,
)
    requires
        contents.len() == dicts.len(),
    ensures
        hear(model::fill_map(f, map, seq![], dicts), dict_replies(contents)) == Some(
            model::go_on(f.push(map)),
        ),
        asked(model::fill_map(f, map, seq![], dicts), dict_replies(contents)) == dict_requests(
            map,
            dicts,
            contents,
        ),
    decreases dicts.len(),
{
    let o = model::fill_map(f, map, seq![], dicts);
    if dicts.len() > 0 {
        let pairs = contents.first();
        let rest = dict_replies(contents.drop_first());
        let o1 = model::fill_map(f, map, pairs.reverse(), dicts.drop_last());
        lemma_hear_first(o, ReplyView::Pairs(pairs), done_replies(pairs.len()) + rest);
        assert(seq![ReplyView::Pairs(pairs)] + (done_replies(pairs.len()) + rest) == dict_replies(
            contents,
        ));
        lemma_fill_map(f, map, pairs.reverse(), dicts.drop_last());
        lemma_hear_parts(o1, done_replies(pairs.len()), rest);
        lemma_fill_from_dicts(f, map, dicts.drop_last(), contents.drop_first());
        assert(pairs.reverse().reverse() == pairs);
        assert(asked(o, dict_replies(contents)) == dict_requests(map, dicts, contents));
    }
}

/// A dict of unpacked dicts gets the entries of each in order, those of the dict that was pushed
/// last first.
pub proof fn build_map_unpacks_dicts(
    f: FrameView,
    size: usize,
    map: PyObjectRef,
    contents: Seq<Seq<(PyObjectRef, PyObjectRef)>>,
    directory: String,
)
    requires
        size <= f.stack.len(),
        contents.len() == size,
    ensures
        ({
            let o = model::execute(f, Instruction::BuildMap { size, unpack: true }, directory);
            let replies = seq![ReplyView::Value(map)] + dict_replies(contents);
            &&& hear(o, replies) == Some(model::go_on(f.drop(size as int).push(map)))
            &&& asked(o, replies) == seq![RequestView::Service(Service::NewDict)] + dict_requests(
                map,
                f.top_values(size as int),
                contents,
            )
        }),
{
    let o = model::execute(f, Instruction::BuildMap { size, unpack: true }, directory);
    lemma_hear_first(o, ReplyView::Value(map), dict_replies(contents));
    lemma_fill_from_dicts(f.drop(size as int), map, f.top_values(size as int), contents);
}

// Calls.

proof fn lemma_invoke_named(
    f: FrameView,
    args: Seq<PyObjectRef>,
    names: Seq<String>,
    rest: Seq<PyObjectRef>,
    texts: Seq<String>,
)
    requires
        texts.len() == rest.len(),
        f.stack.len() >= 1,
    ensures
        hear(model::invoke_named(f, args, names, rest), text_replies(texts)) == Some(
            model::invoke_named(f, args, names + texts, seq![]),
        ),
        asked(model::invoke_named(f, args, names, rest), text_replies(texts)) == text_requests(
            rest.reverse(),
        ),
    decreases rest.len(),
{
    let o = model::invoke_named(f, args, names, rest);
    if rest.len() == 0 {
        assert(names + texts == names);
        assert(rest == Seq::<PyObjectRef>::empty());
        assert(text_requests(rest.reverse()) == Seq::<RequestView>::empty());
    } else {
        let next = names.push(texts.first());
        lemma_invoke_named(f, args, next, rest.drop_last(), texts.drop_first());
        assert(text_replies(texts) == seq![ReplyView::Text(texts.first())] + text_replies(
            texts.drop_first(),
        ));
        lemma_hear_first(o, ReplyView::Text(texts.first()), text_replies(texts.drop_first()));
        assert(next + texts.drop_first() == names + texts);
        assert(text_requests(rest.reverse()) == seq![o.1->request] + text_requests(
            rest.drop_last().reverse(),
        ));
    }
}

/// A call with named arguments reads the names, in order, from the object on top of the stack,
/// and calls what lies below the arguments.
pub proof fn keyword_call_reads_names(
    f: FrameView,
    count: usize,
    objs: Seq<PyObjectRef>,
    names: Seq<String>,
    directory: String,
)
    requires
        count + 2 <= f.stack.len(),
        names.len() == objs.len(),
    ensures
        ({
            let o = model::execute(
                f,
                Instruction::CallFunction { typ: CallType::Keyword(count) },
                directory,
            );
            let replies = seq![ReplyView::Elements(objs)] + text_replies(names);
            &&& hear(o, replies) == Some(
                model::ask(
                    f.drop(count + 2),
                    RequestView::InvokeNamed {
                        func: f.nth(count + 1),
                        args: f.drop(1).top_values(count as int),
                        names,
                    },
                    ContinuationView::After(After::Push),
                ),
            )
            &&& asked(o, replies) == seq![
                RequestView::Service(Service::ExtractElements { obj: f.top() }),
            ] + text_requests(objs)
        }),
{
    let o = model::execute(
        f,
        Instruction::CallFunction { typ: CallType::Keyword(count) },
        directory,
    );
    let g = f.drop(1).drop(count as int);
    let args = f.drop(1).top_values(count as int);
    lemma_hear_first(o, ReplyView::Elements(objs), text_replies(names));
    lemma_invoke_named(g, args, seq![], objs.reverse(), names);
    assert(objs.reverse().reverse() == objs);
    assert(Seq::<String>::empty() + names == names);
    assert(g.drop(1) == f.drop(count + 2));
}

// Names.

/// For each name of a module: its text, and that it is stored.
pub open spec fn import_replies(names: Seq<String>) -> Seq<ReplyView>
    decreases names.len(),
{
    if names.len() == 0 {
        seq![]
    } else {
        seq![ReplyView::Text(names.first()), ReplyView::Done] + import_replies(names.drop_first())
    }
}

/// For each name of a module: its text is asked for, and its value is stored in the scope.
pub open spec fn import_requests(
    scope: PyObjectRef,
    pairs: Seq<(PyObjectRef, PyObjectRef)>,
    names: Seq<String>,
) -> Seq<RequestView>
    decreases names.len(),
{
    if names.len() == 0 {
        seq![]
    } else {
        seq![
            RequestView::Query(Query::StrValue { obj: pairs.first().0 }),
            RequestView::Service(
                Service::SetAttr { obj: scope, name: names.first(), value: pairs.first().1 },
            ),
        ] + import_requests(scope, pairs.drop_first(), names.drop_first())
    }
}

proof fn lemma_store_names(
    f: FrameView,
    rest: Seq<(PyObjectRef, PyObjectRef)>,
    names: Seq<String>,
)
    requires
        names.len() == rest.len(),
    ensures
        hear(model::store_names(f, rest), import_replies(names)) == Some(model::go_on(f)),
        asked(model::store_names(f, rest), import_replies(names)) == import_requests(
            f.locals,
            rest.reverse(),
            names,
        ),
    decreases rest.len(),
{
    let o = model::store_names(f, rest);
    if rest.len() > 0 {
        let name = names.first();
        let after = import_replies(names.drop_first());
        lemma_store_names(f, rest.drop_last(), names.drop_first());
        assert(import_replies(names) == seq![ReplyView::Text(name)] + (seq![ReplyView::Done]
            + after));
        lemma_hear_first(o, ReplyView::Text(name), seq![ReplyView::Done] + after);
        let o1 = model::resume(o.0, o.1->resume, ReplyView::Text(name));
        lemma_hear_first(o1, ReplyView::Done, after);
        assert(rest.reverse().drop_first() == rest.drop_last().reverse());
        assert(asked(o, import_replies(names)) == import_requests(
            f.locals,
            rest.reverse(),
            names,
        ));
    }
}

/// Importing all names of a module stores each of them, in order, in the scope of the frame.
pub proof fn import_star_stores_each_name(
    f: FrameView,
    module: String,
    obj: PyObjectRef,
    pairs: Seq<(PyObjectRef, PyObjectRef)>,
    names: Seq<String>,
    directory: String,
)
    requires
        names.len() == pairs.len(),
    ensures
        ({
            let o = model::execute(f, Instruction::ImportStar { name: module }, directory);
            let replies = seq![ReplyView::Value(obj), ReplyView::Pairs(pairs)] + import_replies(
                names,
            );
            &&& hear(o, replies) == Some(model::go_on(f))
            &&& asked(o, replies) == seq![
                RequestView::Service(Service::ImportModule { path: directory, module }),
                RequestView::Query(Query::KeyValuePairs { obj }),
            ] + import_requests(f.locals, pairs, names)
        }),
{
    let o = model::execute(f, Instruction::ImportStar { name: module }, directory);
    let after = import_replies(names);
    let replies = seq![ReplyView::Value(obj), ReplyView::Pairs(pairs)] + after;
    assert(replies == seq![ReplyView::Value(obj)] + (seq![ReplyView::Pairs(pairs)] + after));
    lemma_hear_first(o, ReplyView::Value(obj), seq![ReplyView::Pairs(pairs)] + after);
    let o1 = model::resume(o.0, o.1->resume, ReplyView::Value(obj));
    lemma_hear_first(o1, ReplyView::Pairs(pairs), after);
    lemma_store_names(f, pairs.reverse(), names);
    assert(pairs.reverse().reverse() == pairs);
    assert(asked(o, replies) == seq![
        RequestView::Service(Service::ImportModule { path: directory, module }),
        RequestView::Query(Query::KeyValuePairs { obj }),
    ] + import_requests(f.locals, pairs, names));
}

/// For each scope of a chain but the last: it does not hold the name, it has a parent, and which.
pub open spec fn miss_replies(chain: Seq<PyObjectRef>) -> Seq<ReplyView>
    decreases chain.len(),
{
    if chain.len() <= 1 {
        seq![]
    } else {
        seq![ReplyView::Truth(false), ReplyView::Truth(true), ReplyView::Value(chain[1])]
            + miss_replies(chain.drop_first())
    }
}

/// Scopes that do not hold a name are passed, from the inner ones to the outer ones.
pub proof fn look_up_passes_scopes(f: FrameView, chain: Seq<PyObjectRef>, name: String)
    requires
        chain.len() >= 1,
    ensures
        hear(model::look_up(f, chain.first(), name), miss_replies(chain)) == Some(
            model::look_up(f, chain.last(), name),
        ),
    decreases chain.len(),
{
    if chain.len() > 1 {
        let o = model::look_up(f, chain.first(), name);
        let after = miss_replies(chain.drop_first());
        let third = seq![ReplyView::Value(chain[1])] + after;
        let second = seq![ReplyView::Truth(true)] + third;
        assert(miss_replies(chain) == seq![ReplyView::Truth(false)] + second);
        lemma_hear_first(o, ReplyView::Truth(false), second);
        let o1 = model::resume(o.0, o.1->resume, ReplyView::Truth(false));
        lemma_hear_first(o1, ReplyView::Truth(true), third);
        let o2 = model::resume(o1.0, o1.1->resume, ReplyView::Truth(true));
        lemma_hear_first(o2, ReplyView::Value(chain[1]), after);
        look_up_passes_scopes(f, chain.drop_first(), name);
    }
}

/// A name is loaded from the innermost scope that holds it, where `chain` are the scopes from
/// that of the frame up to that one.
pub proof fn load_name_finds_innermost(
    f: FrameView,
    chain: Seq<PyObjectRef>,
    name: String,
    value: PyObjectRef,
    directory: String,
)
    requires
        chain.len() >= 1,
        chain.first() == f.locals,
    ensures
        ({
            let o = model::execute(f, Instruction::LoadName { name }, directory);
            &&& hear(o, miss_replies(chain) + seq![ReplyView::Truth(true)]) == Some(
                model::ask_query(
                    f,
                    Query::ScopeItem { scope: chain.last(), name },
                    After::Push,
                ),
            )
            &&& hear(
                o,
                miss_replies(chain) + seq![ReplyView::Truth(true), ReplyView::Value(value)],
            ) == Some(model::go_on(f.push(value)))
        }),
{
    let o = model::execute(f, Instruction::LoadName { name }, directory);
    let o1 = model::look_up(f, chain.last(), name);
    let none = Seq::<ReplyView>::empty();
    look_up_passes_scopes(f, chain, name);
    lemma_hear_parts(o, miss_replies(chain), seq![ReplyView::Truth(true)]);
    lemma_hear_parts(
        o,
        miss_replies(chain),
        seq![ReplyView::Truth(true), ReplyView::Value(value)],
    );
    lemma_hear_first(o1, ReplyView::Truth(true), none);
    assert(seq![ReplyView::Truth(true)] + none == seq![ReplyView::Truth(true)]);
    lemma_hear_first(o1, ReplyView::Truth(true), seq![ReplyView::Value(value)]);
    assert(seq![ReplyView::Truth(true)] + seq![ReplyView::Value(value)] == seq![
        ReplyView::Truth(true),
        ReplyView::Value(value),
    ]);
    let o2 = model::resume(o1.0, o1.1->resume, ReplyView::Truth(true));
    lemma_hear_first(o2, ReplyView::Value(value), none);
    assert(seq![ReplyView::Value(value)] + none == seq![ReplyView::Value(value)]);
}

/// A name that no scope of the chain holds, where the last one has no parent, raises a
/// `NameError` that names it.
pub proof fn load_name_misses(
    f: FrameView,
    chain: Seq<PyObjectRef>,
    name: String,
    exc: PyObjectRef,
    directory: String,
)
    requires
        chain.len() >= 1,
        chain.first() == f.locals,
    ensures
        ({
            let o = model::execute(f, Instruction::LoadName { name }, directory);
            let misses = miss_replies(chain) + seq![
                ReplyView::Truth(false),
                ReplyView::Truth(false),
            ];
            &&& hear(o, misses) == Some(
                model::ask_exception(f, ExceptionClass::NameError, not_defined(name@)),
            )
            &&& model::resume(
                f,
                ContinuationView::After(After::Throw),
                ReplyView::Value(exc),
            ) == model::raise(f, exc)
        }),
{
    let o = model::execute(f, Instruction::LoadName { name }, directory);
    let o1 = model::look_up(f, chain.last(), name);
    let none = Seq::<ReplyView>::empty();
    let last = seq![ReplyView::Truth(false)];
    look_up_passes_scopes(f, chain, name);
    lemma_hear_parts(
        o,
        miss_replies(chain),
        seq![ReplyView::Truth(false), ReplyView::Truth(false)],
    );
    lemma_hear_first(o1, ReplyView::Truth(false), last);
    assert(seq![ReplyView::Truth(false)] + last == seq![
        ReplyView::Truth(false),
        ReplyView::Truth(false),
    ]);
    let o2 = model::resume(o1.0, o1.1->resume, ReplyView::Truth(false));
    lemma_hear_first(o2, ReplyView::Truth(false), none);
    assert(seq![ReplyView::Truth(false)] + none == last);
}

// Raising.

/// An exception is raised as it is; a class of exceptions is raised by a new exception of it; for
/// anything else a `TypeError` is raised that shows it.
pub proof fn raise_decides(
    f: FrameView,
    new: PyObjectRef,
    shown: String,
    directory: String,
)
    requires
        f.stack.len() >= 1,
    ensures
        ({
            let exc = f.top();
            let g = f.drop(1);
            let o = model::execute(f, Instruction::Raise { argc: 1 }, directory);
            let yes = ReplyView::Truth(true);
            let no = ReplyView::Truth(false);
            let invalid = model::ask_exception(
                g,
                ExceptionClass::TypeError,
                not_an_exception(shown@),
            );
            &&& hear(o, seq![yes]) == Some(model::raise(g, exc))
            &&& hear(o, seq![no, yes, yes, ReplyView::Value(new)]) == Some(model::raise(g, new))
            &&& hear(o, seq![no, no, ReplyView::Text(shown)]) == Some(invalid)
            &&& hear(o, seq![no, yes, no, ReplyView::Text(shown)]) == Some(invalid)
            &&& asked(o, seq![no, yes, yes, ReplyView::Value(new)]) == seq![
                RequestView::Query(Query::IsInstance { obj: exc, class: Class::BaseException }),
                RequestView::Query(Query::IsInstance { obj: exc, class: Class::Type }),
                RequestView::Query(Query::IsSubclass { obj: exc, class: Class::BaseException }),
                RequestView::Service(Service::EmptyException { class: exc }),
            ]
        }),
{
    let o = model::execute(f, Instruction::Raise { argc: 1 }, directory);
    let yes = ReplyView::Truth(true);
    let no = ReplyView::Truth(false);
    let none = Seq::<ReplyView>::empty();
    let made = seq![ReplyView::Value(new)];
    let text = seq![ReplyView::Text(shown)];
    assert(seq![yes] == seq![yes] + none);
    lemma_hear_first(o, yes, none);
    let o1 = model::resume(o.0, o.1->resume, no);
    assert(seq![no, yes, yes, ReplyView::Value(new)] == seq![no] + (seq![yes] + (seq![yes]
        + made)));
    lemma_hear_first(o, no, seq![yes] + (seq![yes] + made));
    lemma_hear_first(o1, yes, seq![yes] + made);
    let o2 = model::resume(o1.0, o1.1->resume, yes);
    lemma_hear_first(o2, yes, made);
    let o3 = model::resume(o2.0, o2.1->resume, yes);
    assert(made == seq![ReplyView::Value(new)] + none);
    lemma_hear_first(o3, ReplyView::Value(new), none);
    assert(seq![no, no, ReplyView::Text(shown)] == seq![no] + (seq![no] + text));
    lemma_hear_first(o, no, seq![no] + text);
    lemma_hear_first(o1, no, text);
    let o4 = model::resume(o1.0, o1.1->resume, no);
    assert(text == seq![ReplyView::Text(shown)] + none);
    lemma_hear_first(o4, ReplyView::Text(shown), none);
    assert(seq![no, yes, no, ReplyView::Text(shown)] == seq![no] + (seq![yes] + (seq![no]
        + text)));
    lemma_hear_first(o, no, seq![yes] + (seq![no] + text));
    lemma_hear_first(o1, yes, seq![no] + text);
    lemma_hear_first(o2, no, text);
    let o5 = model::resume(o2.0, o2.1->resume, no);
    lemma_hear_first(o5, ReplyView::Text(shown), none);
    assert(asked(o, seq![no, yes, yes, ReplyView::Value(new)]) == seq![
        RequestView::Query(Query::IsInstance { obj: f.top(), class: Class::BaseException }),
        RequestView::Query(Query::IsInstance { obj: f.top(), class: Class::Type }),
        RequestView::Query(Query::IsSubclass { obj: f.top(), class: Class::BaseException }),
        RequestView::Service(Service::EmptyException { class: f.top() }),
    ]);
}

} // verus!
