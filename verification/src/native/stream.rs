//! `java/util/stream/Stream`: a stream is an object whose `$next` gives an
//! `Optional`, empty at the end. Its operations run in steps, the program
//! counter counting the step.
use vstd::prelude::*;

use crate::class::{FieldType, FieldTypeView, MethodDescriptor, MethodDescriptorView};
use crate::data::{WorkingClassArea, WorkingMethodArea};
use crate::error::{Error, Fault};
use crate::native::function::{
    any_view, call_on_effect, call_with, call_with_effect, make_lambda, make_lambda_effect, optional_inner, optional_value,
    pop_returned, popped_one, predicate_view, test_view,
};
use crate::thread::with_stack;
use crate::native::{
    abstract_method, add_method, any_type, call_on, descriptor, file_with_methods, keys_kept, library_class,
    native_method, natives_filed, no_args, object_type, void_returned, word_returned, PUBLIC_NATIVE,
    PUBLIC_STATIC_NATIVE,
};
use crate::raw_class::{RawClassView, RawMethod};
use crate::text::chars;
use crate::thread::Thread;

verus! {

/// `Stream.allMatch(p)`.
pub const STREAM_ALL_MATCH: u32 = 170;
/// `Stream.anyMatch(p)`.
pub const STREAM_ANY_MATCH: u32 = 171;
/// `Stream.noneMatch(p)`.
pub const STREAM_NONE_MATCH: u32 = 172;
/// `Stream.empty()`.
pub const STREAM_EMPTY: u32 = 173;
/// `Stream.$filter(s, p)`: the next element of `s` that `p` accepts.
pub const STREAM_FILTER_STEP: u32 = 174;
/// `Stream.filter(p)`.
pub const STREAM_FILTER: u32 = 175;
/// `Stream.forEach(c)`.
pub const STREAM_FOR_EACH: u32 = 176;

/// Which match a stream is asked for.
pub enum Match {
    AllOf,
    AnyOf,
    NoneOf,
}

/// `()Ljava/lang/Object;`, the descriptor of `$next`.
pub open spec fn next_view() -> MethodDescriptorView {
    MethodDescriptorView { parameter_size: 0, parameters: seq![], return_type: Some(any_view()) }
}

/// `()Ljava/util/Optional;`, the descriptor of `Optional.empty`.
pub open spec fn empty_view() -> MethodDescriptorView {
    MethodDescriptorView {
        parameter_size: 0,
        parameters: seq![],
        return_type: Some(FieldTypeView::Object("java/util/Optional"@)),
    }
}

/// The descriptor of `$filter`: a stream and a predicate, giving an
/// optional.
pub open spec fn filter_view() -> MethodDescriptorView {
    MethodDescriptorView {
        parameter_size: 2,
        parameters: seq![FieldTypeView::Object("java/util/stream/Stream"@), predicate_view()],
        return_type: Some(FieldTypeView::Object("java/util/Optional"@)),
    }
}

/// `(Ljava/lang/Object;)V`, the descriptor of `accept`.
pub open spec fn accept_view() -> MethodDescriptorView {
    MethodDescriptorView { parameter_size: 1, parameters: seq![any_view()], return_type: None }
}

/// `t1` is `t0` with the same views, its operand stack a value of its own.
pub open spec fn same_views(t0: &Thread, t1: &Thread) -> bool {
    &&& t1.stackframe@ == t0.stackframe@
    &&& t1.heap == t0.heap
    &&& t1.class_area == t0.class_area
    &&& t1.method_area == t0.method_area
    &&& t1.stack == t0.stack
    &&& t1.pc_register == t0.pc_register
}

/// `t1` is `t0` going back to step 0 with the top `n` words of its operand
/// stack taken off.
pub open spec fn restarted(t0: &Thread, t1: &Thread, n: int) -> bool {
    let st = t0.stackframe@.stack;
    &&& t1.stackframe@ == with_stack(t0.stackframe@, st.subrange(0, st.len() - n))
    &&& t1.pc_register == 0
    &&& t1.heap == t0.heap
    &&& t1.class_area == t0.class_area
    &&& t1.method_area == t0.method_area
    &&& t1.stack == t0.stack
}

/// The word a match returns at the end of the stream: 0 for `anyMatch`,
/// else 1.
pub open spec fn match_at_end(which: Match) -> u32 {
    match which {
        Match::AnyOf => 0,
        _ => 1,
    }
}

/// Whether a test that `passed` decides the match, and what it returns then.
pub open spec fn match_decided(which: Match, passed: bool) -> Option<u32> {
    match which {
        Match::AllOf => if passed { None } else { Some(0) },
        Match::AnyOf => if passed { Some(1) } else { None },
        Match::NoneOf => if passed { Some(0) } else { None },
    }
}

/// The descriptor `()Ljava/lang/Object;` of `$next`.
fn next_descriptor() -> (r: MethodDescriptor)
    ensures
        r@ == next_view(),
{
    let r = no_args(Some(any_type()));
    assert(r@.parameters =~= Seq::<FieldTypeView>::empty());
    r
}

/// The descriptor `(Ljava/lang/Object;)Z` of `test`.
fn test_descriptor() -> (r: MethodDescriptor)
    ensures
        r@ == test_view(),
{
    let ps = vec![any_type()];
    let r = descriptor(ps, Some(FieldType::Boolean));
    assert(crate::class::field_types_view(ps@) =~= seq![any_view()]);
    proof {
        reveal_with_fuel(crate::class_loader::sum_sizes, 2);
    }
    r
}

/// `allMatch`, `anyMatch` and `noneMatch`: step 0 asks the stream for its
/// next element (coming back at 1); step 1 returns at the end (1, 0, 1), or
/// tests the element (coming back at 2); step 2 returns when the test
/// decides (0 for all on a failure, 1 for any on a success, 0 for none on
/// a success), else goes back to step 0.
pub fn stream_match(thread: &mut Thread, which: Match) -> (r: Result<(), Error>)
    requires
        old(thread).wf(),
    ensures
        final(thread).wf(),
        ({
            let l = old(thread).stackframe@.locals;
            let st = old(thread).stackframe@.stack;
            let pc = old(thread).pc_register;
            let h = old(thread).heap@;
            if l.len() < 2 {
                r == Err::<(), Error>(Error::Misc(Fault::LocalOutOfRange)) && *final(thread) == *old(thread)
            } else if pc == 0 {
                call_on_effect(old(thread), final(thread), r, l[0], "$next"@, next_view(), 1)
            } else if pc > 2 {
                r == Err::<(), Error>(Error::Misc(Fault::PcOutOfRange)) && *final(thread) == *old(thread)
            } else if st.len() == 0 {
                r == Err::<(), Error>(Error::Misc(Fault::StackUnderflow)) && *final(thread) == *old(thread)
            } else if pc == 1 {
                exists|tp: Thread|
                    #[trigger] popped_one(old(thread), &tp) && match optional_value(h, st.last()) {
                        Err(f) => r == Err::<(), Error>(Error::Misc(f)) && *final(thread) == tp,
                        Ok(None) => word_returned(&tp, h, final(thread), match_at_end(which), r),
                        Ok(Some(v)) => call_with_effect(&tp, final(thread), r, l[1], "test"@, test_view(), 2, v),
                    }
            } else {
                match match_decided(which, st.last() != 0) {
                    Some(w) => exists|tp: Thread|
                        #[trigger] popped_one(old(thread), &tp) && word_returned(&tp, h, final(thread), w, r),
                    None => r is Ok && restarted(old(thread), final(thread), 1),
                }
            }
        }),
{
    if thread.stackframe.locals.len() < 2 {
        return Err(Error::Misc(Fault::LocalOutOfRange));
    }
    let this = thread.stackframe.locals[0];
    let predicate = thread.stackframe.locals[1];
    if thread.pc_register == 0 {
        let n = chars("$next");
        call_on(thread, this, n.as_slice(), &next_descriptor(), 1)
    } else if thread.pc_register == 1 || thread.pc_register == 2 {
        let w = match pop_returned(thread) {
            Ok(w) => w,
            Err(e) => {
                return Err(e);
            },
        };
        let ghost tp = *thread;
        if thread.pc_register == 1 {
            let r = match optional_inner(thread, w) {
                Err(e) => Err(e),
                Ok(None) => thread.return_word(
                    match which {
                        Match::AnyOf => 0,
                        _ => 1,
                    },
                ),
                Ok(Some(v)) => call_with(thread, predicate, "test", &test_descriptor(), 2, v),
            };
            assert(popped_one(old(thread), &tp));
            r
        } else {
            let passed = w != 0;
            let decided: Option<u32> = match which {
                Match::AllOf => if passed { None } else { Some(0) },
                Match::AnyOf => if passed { Some(1) } else { None },
                Match::NoneOf => if passed { Some(0) } else { None },
            };
            match decided {
                Some(x) => {
                    let r = thread.return_word(x);
                    assert(popped_one(old(thread), &tp));
                    r
                },
                None => {
                    thread.pc_register = 0;
                    Ok(())
                },
            }
        }
    } else {
        Err(Error::Misc(Fault::PcOutOfRange))
    }
}

/// `Stream.empty()`: a stream whose `$next` is `Optional.empty()`.
pub fn stream_empty(thread: &mut Thread) -> (r: Result<(), Error>)
    requires
        old(thread).wf(),
    ensures
        final(thread).wf(),
        make_lambda_effect(
            old(thread),
            final(thread),
            r,
            0,
            "$next"@,
            next_view(),
            "java/util/Optional"@,
            "empty"@,
            empty_view(),
            "java/util/stream/Stream"@,
        ),
{
    let d = no_args(Some(object_type("java/util/Optional")));
    assert(d@.parameters =~= Seq::<FieldTypeView>::empty());
    make_lambda(thread, 0, "$next", next_descriptor(), "java/util/Optional", "empty", d, "java/util/stream/Stream")
}

/// The descriptor of `$filter`.
fn filter_descriptor() -> (r: MethodDescriptor)
    ensures
        r@ == filter_view(),
{
    let ps = vec![object_type("java/util/stream/Stream"), object_type("java/util/function/Predicate")];
    let r = descriptor(ps, Some(object_type("java/util/Optional")));
    assert(crate::class::field_types_view(ps@) =~= seq![
        FieldTypeView::Object("java/util/stream/Stream"@),
        predicate_view(),
    ]);
    proof {
        reveal_with_fuel(crate::class_loader::sum_sizes, 3);
    }
    r
}

/// `Stream.filter(p)`: a stream whose `$next` is `$filter(this, p)`.
pub fn stream_filter(thread: &mut Thread) -> (r: Result<(), Error>)
    requires
        old(thread).wf(),
    ensures
        final(thread).wf(),
        make_lambda_effect(
            old(thread),
            final(thread),
            r,
            2,
            "$next"@,
            next_view(),
            "java/util/stream/Stream"@,
            "$filter"@,
            filter_view(),
            "java/util/stream/Stream"@,
        ),
{
    make_lambda(
        thread,
        2,
        "$next",
        next_descriptor(),
        "java/util/stream/Stream",
        "$filter",
        filter_descriptor(),
        "java/util/stream/Stream",
    )
}

/// `Stream.$filter(s, p)`: step 0 asks `s` for its next element (coming back
/// at 1); step 1 returns the empty optional at the end, or keeps the
/// optional and tests its element (coming back at 2); step 2 returns the
/// kept optional when the test passed, else drops it and goes back to 0.
pub fn stream_filter_step(thread: &mut Thread) -> (r: Result<(), Error>)
    requires
        old(thread).wf(),
    ensures
        final(thread).wf(),
        ({
            let l = old(thread).stackframe@.locals;
            let st = old(thread).stackframe@.stack;
            let pc = old(thread).pc_register;
            let h = old(thread).heap@;
            if l.len() < 2 {
                r == Err::<(), Error>(Error::Misc(Fault::LocalOutOfRange)) && *final(thread) == *old(thread)
            } else if pc == 0 {
                call_on_effect(old(thread), final(thread), r, l[0], "$next"@, next_view(), 1)
            } else if pc > 2 {
                r == Err::<(), Error>(Error::Misc(Fault::PcOutOfRange)) && *final(thread) == *old(thread)
            } else if st.len() == 0 {
                r == Err::<(), Error>(Error::Misc(Fault::StackUnderflow)) && *final(thread) == *old(thread)
            } else if pc == 1 {
                match optional_value(h, st.last()) {
                    Err(f) => r == Err::<(), Error>(Error::Misc(f)) && popped_one(old(thread), final(thread)),
                    Ok(None) => exists|tp: Thread|
                        #[trigger] popped_one(old(thread), &tp) && word_returned(&tp, h, final(thread), st.last(), r),
                    Ok(Some(v)) => exists|tq: Thread|
                        #[trigger] same_views(old(thread), &tq) && call_with_effect(
                            &tq,
                            final(thread),
                            r,
                            l[1],
                            "test"@,
                            test_view(),
                            2,
                            v,
                        ),
                }
            } else if st.len() == 1 {
                r == Err::<(), Error>(Error::Misc(Fault::StackUnderflow)) && popped_one(old(thread), final(thread))
            } else if st.last() == 0 {
                r is Ok && restarted(old(thread), final(thread), 2)
            } else {
                exists|tp: Thread|
                    #[trigger] restarted(old(thread), &tp, 2) && word_returned(
                        &Thread { pc_register: pc, ..tp },
                        h,
                        final(thread),
                        st[st.len() - 2],
                        r,
                    )
            }
        }),
{
    if thread.stackframe.locals.len() < 2 {
        return Err(Error::Misc(Fault::LocalOutOfRange));
    }
    let stream = thread.stackframe.locals[0];
    let predicate = thread.stackframe.locals[1];
    if thread.pc_register == 0 {
        let n = chars("$next");
        call_on(thread, stream, n.as_slice(), &next_descriptor(), 1)
    } else if thread.pc_register == 1 {
        let opt = match pop_returned(thread) {
            Ok(w) => w,
            Err(e) => {
                return Err(e);
            },
        };
        let ghost tp = *thread;
        match optional_inner(thread, opt) {
            Err(e) => Err(e),
            Ok(None) => {
                let r = thread.return_word(opt);
                assert(popped_one(old(thread), &tp));
                r
            },
            Ok(Some(v)) => {
                thread.stackframe.operand_stack.push(opt);
                let ghost tq = *thread;
                assert(thread.stackframe@.stack =~= old(thread).stackframe@.stack);
                let r = call_with(thread, predicate, "test", &test_descriptor(), 2, v);
                assert(same_views(old(thread), &tq));
                r
            },
        }
    } else if thread.pc_register == 2 {
        let passed = match pop_returned(thread) {
            Ok(w) => w != 0,
            Err(e) => {
                return Err(e);
            },
        };
        let kept = match pop_returned(thread) {
            Ok(w) => w,
            Err(e) => {
                return Err(e);
            },
        };
        assert(thread.stackframe@.stack =~= old(thread).stackframe@.stack.subrange(
            0,
            old(thread).stackframe@.stack.len() - 2,
        ));
        if !passed {
            thread.pc_register = 0;
            return Ok(());
        }
        let ghost tp = Thread { pc_register: 0, ..*thread };
        let r = thread.return_word(kept);
        assert(restarted(old(thread), &tp, 2));
        r
    } else {
        Err(Error::Misc(Fault::PcOutOfRange))
    }
}

/// `Stream.forEach(c)`: step 0 asks the stream for its next element (coming
/// back at 1); step 1 returns at the end, or gives the element to `c.accept`
/// (coming back at 0).
pub fn stream_for_each(thread: &mut Thread) -> (r: Result<(), Error>)
    requires
        old(thread).wf(),
    ensures
        final(thread).wf(),
        ({
            let l = old(thread).stackframe@.locals;
            let st = old(thread).stackframe@.stack;
            let h = old(thread).heap@;
            if l.len() < 2 {
                r == Err::<(), Error>(Error::Misc(Fault::LocalOutOfRange)) && *final(thread) == *old(thread)
            } else if old(thread).pc_register == 0 {
                call_on_effect(old(thread), final(thread), r, l[0], "$next"@, next_view(), 1)
            } else if st.len() == 0 {
                r == Err::<(), Error>(Error::Misc(Fault::StackUnderflow)) && *final(thread) == *old(thread)
            } else {
                exists|tp: Thread|
                    #[trigger] popped_one(old(thread), &tp) && match optional_value(h, st.last()) {
                        Err(f) => r == Err::<(), Error>(Error::Misc(f)) && *final(thread) == tp,
                        Ok(None) => void_returned(&tp, h, final(thread), r),
                        Ok(Some(v)) => call_with_effect(&tp, final(thread), r, l[1], "accept"@, accept_view(), 0, v),
                    }
            }
        }),
{
    if thread.stackframe.locals.len() < 2 {
        return Err(Error::Misc(Fault::LocalOutOfRange));
    }
    let this = thread.stackframe.locals[0];
    let consumer = thread.stackframe.locals[1];
    if thread.pc_register == 0 {
        let n = chars("$next");
        call_on(thread, this, n.as_slice(), &next_descriptor(), 1)
    } else {
        let opt = match pop_returned(thread) {
            Ok(w) => w,
            Err(e) => {
                return Err(e);
            },
        };
        let ghost tp = *thread;
        let r = match optional_inner(thread, opt) {
            Err(e) => Err(e),
            Ok(None) => thread.return_nothing(),
            Ok(Some(v)) => {
                let ps = vec![any_type()];
                let d = descriptor(ps, None);
                assert(crate::class::field_types_view(ps@) =~= seq![any_view()]);
                proof {
                    reveal_with_fuel(crate::class_loader::sum_sizes, 2);
                }
                assert(d@ == accept_view());
                call_with(thread, consumer, "accept", &d, 0, v)
            },
        };
        assert(popped_one(old(thread), &tp));
        r
    }
}

/// The methods of `java/util/stream/Stream`, in the order they are filed.
pub open spec fn lib_stream_methods() -> Seq<crate::raw_class::RawMethodView> {
    seq![
        crate::native::native_view(PUBLIC_NATIVE, "allMatch"@, crate::native::mdesc(seq![crate::class::FieldTypeView::Object("java/util/function/Predicate"@)], Some(crate::class::FieldTypeView::Boolean)), STREAM_ALL_MATCH),
        crate::native::native_view(PUBLIC_NATIVE, "anyMatch"@, crate::native::mdesc(seq![crate::class::FieldTypeView::Object("java/util/function/Predicate"@)], Some(crate::class::FieldTypeView::Boolean)), STREAM_ANY_MATCH),
        crate::native::abstract_view("$next"@, next_view()),
        crate::native::native_view(PUBLIC_NATIVE, "forEach"@, crate::native::mdesc(seq![crate::class::FieldTypeView::Object("java/util/function/Consumer"@)], None), STREAM_FOR_EACH),
        crate::native::native_view(PUBLIC_NATIVE, "filter"@, crate::native::mdesc(seq![crate::class::FieldTypeView::Object("java/util/function/Predicate"@)], Some(crate::class::FieldTypeView::Object("java/util/stream/Stream"@))), STREAM_FILTER),
        crate::native::native_view(0x010a, "$filter"@, filter_view(), STREAM_FILTER_STEP),
        crate::native::native_view(PUBLIC_STATIC_NATIVE, "empty"@, crate::native::mdesc(seq![], Some(crate::class::FieldTypeView::Object("java/util/stream/Stream"@))), STREAM_EMPTY),
    ]
}

/// `java/util/stream/Stream` before its methods are listed.
pub open spec fn lib_stream_base() -> crate::raw_class::RawClassView {
    crate::raw_class::new_class_view(0x0501, "java/util/stream/Stream"@, "java/lang/Object"@)
}

/// The method area after filing the methods of `Stream`, in order.
pub open spec fn lib_stream_methods_filed(ma: Seq<(crate::data::MethodKey, (Seq<char>, crate::raw_class::RawMethodView))>) -> Seq<(crate::data::MethodKey, (Seq<char>, crate::raw_class::RawMethodView))> {
    let a = ma;
    let a = crate::native::file_methods(a, "java/util/stream/Stream"@, lib_stream_methods());
    a
}

/// The class area after filing `Stream`, in order.
pub open spec fn lib_stream_classes_filed(ca: Seq<(Seq<char>, crate::raw_class::RawClassView)>) -> Seq<(Seq<char>, crate::raw_class::RawClassView)> {
    let a = ca;
    let a = crate::data::insert_entry(a, "java/util/stream/Stream"@, crate::native::with_method_names(lib_stream_base(), lib_stream_methods()));
    a
}

/// Files `java/util/stream/Stream` with its operations (`noneMatch` is
/// provided but not filed).
pub fn add_stream(
    method_area: &mut WorkingMethodArea,
    class_area: &mut WorkingClassArea,
    Ghost(start): Ghost<Seq<(Seq<char>, RawClassView)>>,
)
    requires
        natives_filed(old(method_area)@, old(class_area)@, start),
    ensures
        final(method_area)@ == lib_stream_methods_filed(old(method_area)@),
        final(class_area)@ == lib_stream_classes_filed(old(class_area)@),
        natives_filed(final(method_area)@, final(class_area)@, start),
        keys_kept(old(class_area)@, final(class_area)@),
        crate::data::lookup_entry(final(class_area)@, "java/util/stream/Stream"@) is Some,
{
    let stream = library_class(0x0501, "java/util/stream/Stream", "java/lang/Object");
    let mut ms: Vec<RawMethod> = Vec::new();
    add_method(
        &mut ms,
        native_method(PUBLIC_NATIVE, "allMatch", descriptor(vec![object_type("java/util/function/Predicate")], Some(FieldType::Boolean)), STREAM_ALL_MATCH),
    );
    add_method(
        &mut ms,
        native_method(
            PUBLIC_NATIVE,
            "anyMatch",
            descriptor(vec![object_type("java/util/function/Predicate")], Some(FieldType::Boolean)),
            STREAM_ANY_MATCH,
        ),
    );
    add_method(&mut ms, abstract_method("$next", next_descriptor()));
    add_method(
        &mut ms,
        native_method(
            PUBLIC_NATIVE,
            "forEach",
            descriptor(vec![object_type("java/util/function/Consumer")], None),
            STREAM_FOR_EACH,
        ),
    );
    add_method(
        &mut ms,
        native_method(
            PUBLIC_NATIVE,
            "filter",
            descriptor(vec![object_type("java/util/function/Predicate")], Some(object_type("java/util/stream/Stream"))),
            STREAM_FILTER,
        ),
    );
    add_method(&mut ms, native_method(0x010a, "$filter", filter_descriptor(), STREAM_FILTER_STEP));
    add_method(
        &mut ms,
        native_method(PUBLIC_STATIC_NATIVE, "empty", no_args(Some(object_type("java/util/stream/Stream"))), STREAM_EMPTY),
    );
    proof {
        assert(crate::raw_class::raw_methods_view(ms@) =~~= lib_stream_methods());
        assert(stream@ =~~= lib_stream_base());
    }
    file_with_methods(stream, ms, method_area, class_area, Ghost(start));
}

} // verus!
