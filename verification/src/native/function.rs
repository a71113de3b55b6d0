//! The functional interfaces of the library (`Function`, `Predicate`,
//! `Consumer`) and `Optional`. Their combinators make lambda objects whose
//! targets are native helper methods that run in steps, the program counter
//! counting the step.
use vstd::prelude::*;

use crate::class::{ClassView, FieldType, FieldTypeView, MethodDescriptor, MethodDescriptorView, MethodHandle, MethodHandleView, MethodView};
use crate::dynamic::heap_with;
use crate::frame::StackFrameView;
use crate::object::{LambdaOverrideView, NativeFieldView, ObjectView};
use crate::thread::{clinit_descriptor, clinit_name, fresh_frame, frames_view, initialize_effect, spec_resolve, with_stack};
use crate::data::{lookup_entry, ClassStateView, SharedClassAreaView};
use crate::error::ErrorView;
use crate::heap::{spec_allocate_str, spec_inc_ref};
use crate::data::{class_position, WorkingClassArea, WorkingMethodArea, NULL};
use crate::error::{Error, Fault};
use crate::heap::{object_at, HeapView};
use crate::native::{
    abstract_method, add_method, any_type, arg, call_on, called_on, descriptor, file_with_methods, keys_kept, library_class,
    has_caller, library_field, native_method, natives_filed, no_args, object_type, returned_frames, string_type, word_returned, PUBLIC_NATIVE,
    PUBLIC_STATIC_NATIVE,
};
use crate::object::{LambdaOverride, NativeField, Object};
use crate::raw_class::{RawClassView, RawMethod};
use crate::text::chars;
use crate::thread::Thread;

verus! {

/// `Function.$compose(first, second, x)`: `second.apply(first.apply(x))`.
pub const FUNCTION_COMPOSE_STEP: u32 = 140;
/// `Function.compose(before)`.
pub const FUNCTION_COMPOSE: u32 = 141;
/// `Function.andThen(after)`.
pub const FUNCTION_AND_THEN: u32 = 142;
/// `Function.<clinit>`: makes the identity.
pub const FUNCTION_CLINIT: u32 = 143;
/// `Function.identity()`.
pub const FUNCTION_IDENTITY: u32 = 144;
/// `Function.$identity(x)`: `x`.
pub const FUNCTION_IDENTITY_STEP: u32 = 145;
/// `Predicate.$negative(p, x)`: `!p.test(x)`.
pub const PREDICATE_NEGATIVE: u32 = 146;
/// `Predicate.negate()` and the static `negate(p)`.
pub const PREDICATE_NEGATE: u32 = 147;
/// `Predicate.isEqual(target)`.
pub const PREDICATE_IS_EQUAL: u32 = 148;
/// `Predicate.$and(p, q, x)`.
pub const PREDICATE_AND_STEP: u32 = 149;
/// `Predicate.$or(p, q, x)`.
pub const PREDICATE_OR_STEP: u32 = 150;
/// `Predicate.and(q)`.
pub const PREDICATE_AND: u32 = 151;
/// `Predicate.or(q)`.
pub const PREDICATE_OR: u32 = 152;
/// `Optional.<clinit>`: makes the empty optional.
pub const OPTIONAL_CLINIT: u32 = 153;
/// `Optional.empty()`.
pub const OPTIONAL_EMPTY: u32 = 154;
/// `Optional.of(x)`.
pub const OPTIONAL_OF: u32 = 155;
/// `Optional.ofNullable(x)`.
pub const OPTIONAL_OF_NULLABLE: u32 = 156;
/// `Optional.equals(other)`.
pub const OPTIONAL_EQUALS: u32 = 157;
/// `Optional.filter(p)`.
pub const OPTIONAL_FILTER: u32 = 158;
/// `Optional.hashCode()`.
pub const OPTIONAL_HASH_CODE: u32 = 159;
/// `Optional.isEmpty()`.
pub const OPTIONAL_IS_EMPTY: u32 = 160;
/// `Optional.isPresent()`.
pub const OPTIONAL_IS_PRESENT: u32 = 161;
/// `Optional.toString()`.
pub const OPTIONAL_TO_STRING: u32 = 162;

/// The word an empty `Optional` holds as its value.
pub const NONE: u32 = 0xFFFF_FFFF;

/// The type `java/lang/Object`.
pub open spec fn any_view() -> FieldTypeView {
    FieldTypeView::Object("java/lang/Object"@)
}

/// The type `java/util/function/Function`.
pub open spec fn function_view() -> FieldTypeView {
    FieldTypeView::Object("java/util/function/Function"@)
}

/// The type `java/util/function/Predicate`.
pub open spec fn predicate_view() -> FieldTypeView {
    FieldTypeView::Object("java/util/function/Predicate"@)
}

/// `(Ljava/lang/Object;)Ljava/lang/Object;`, the descriptor of `apply`.
pub open spec fn apply_view() -> MethodDescriptorView {
    MethodDescriptorView { parameter_size: 1, parameters: seq![any_view()], return_type: Some(any_view()) }
}

/// `(Ljava/lang/Object;)Z`, the descriptor of `test`.
pub open spec fn test_view() -> MethodDescriptorView {
    MethodDescriptorView { parameter_size: 1, parameters: seq![any_view()], return_type: Some(FieldTypeView::Boolean) }
}

/// The descriptor of `$compose`: two functions and an object, giving an object.
pub open spec fn compose_view() -> MethodDescriptorView {
    MethodDescriptorView {
        parameter_size: 3,
        parameters: seq![function_view(), function_view(), any_view()],
        return_type: Some(any_view()),
    }
}

/// The descriptor of `$negative`: a predicate and an object, giving a boolean.
pub open spec fn negative_view() -> MethodDescriptorView {
    MethodDescriptorView {
        parameter_size: 2,
        parameters: seq![predicate_view(), any_view()],
        return_type: Some(FieldTypeView::Boolean),
    }
}

/// The descriptor of `$and` and `$or`: two predicates and an object, giving
/// a boolean.
pub open spec fn both_view() -> MethodDescriptorView {
    MethodDescriptorView {
        parameter_size: 3,
        parameters: seq![predicate_view(), predicate_view(), any_view()],
        return_type: Some(FieldTypeView::Boolean),
    }
}

/// `t1` is `t0` calling the method `m` of `c` with `obj` and `second` as its
/// first two locals, `addr` pushed as the return address of the running
/// frame.
pub open spec fn called_with(t0: &Thread, t1: &Thread, c: ClassView, m: MethodView, obj: u32, second: u32, addr: u32) -> bool {
    let f = fresh_frame(m, c);
    &&& frames_view(t1.stack@) == frames_view(t0.stack@).push(
        with_stack(t0.stackframe@, t0.stackframe@.stack.push(addr)),
    )
    &&& t1.stackframe@ == StackFrameView { locals: f.locals.update(0, obj).update(1, second), ..f }
    &&& t1.pc_register == 0
    &&& t1.heap@ == t0.heap@
    &&& t1.class_area@ == t0.class_area@
    &&& t1.method_area@ == t0.method_area@
}

/// What calling `name` (descriptor `desc`) that the object `obj` runs, with
/// `second` as its argument, coming back at `addr`, does (see `call_with`):
/// nothing when no method is found; a method without room for the argument
/// is called, then refused.
pub open spec fn call_with_effect(
    t0: &Thread,
    t1: &Thread,
    r: Result<(), Error>,
    obj: u32,
    name: Seq<char>,
    desc: MethodDescriptorView,
    addr: u32,
    second: u32,
) -> bool {
    match spec_resolve(t0.heap@, t0.class_area@.classes, t0.method_area@, obj, name, desc) {
        Err(e) => (r matches Err(er) && er@ == e) && *t1 == *t0,
        Ok((c, m)) => if m.max_locals as nat + 1 < 2 {
            (r matches Err(Error::Misc(f)) && f == Fault::LocalOutOfRange) && called_on(t0, t1, c, m, obj, addr)
        } else {
            r is Ok && called_with(t0, t1, c, m, obj, second, addr)
        },
    }
}

/// `t1` is `t0` with the top word of its operand stack taken off.
pub open spec fn popped_one(t0: &Thread, t1: &Thread) -> bool {
    &&& t0.stackframe@.stack.len() > 0
    &&& t1.stackframe@ == with_stack(t0.stackframe@, t0.stackframe@.stack.drop_last())
    &&& t1.heap == t0.heap
    &&& t1.class_area == t0.class_area
    &&& t1.method_area == t0.method_area
    &&& t1.stack == t0.stack
    &&& t1.pc_register == t0.pc_register
}

/// The object of a lambda of class `class` implementing `method` (with
/// descriptor `desc`) by calling the static `target` of `target_class`
/// (descriptor `target_desc`) with the captured words `captures` first.
pub open spec fn made_lambda(
    class: Seq<char>,
    method: Seq<char>,
    desc: MethodDescriptorView,
    target_class: Seq<char>,
    target: Seq<char>,
    target_desc: MethodDescriptorView,
    captures: Seq<u32>,
) -> ObjectView {
    ObjectView {
        fields: seq![],
        native_fields: seq![
            NativeFieldView::Lambda(
                LambdaOverrideView {
                    method_name: method,
                    method_descriptor: desc,
                    invoke: MethodHandleView::InvokeStatic { class: target_class, name: target, method_type: target_desc },
                    captures,
                },
            ),
        ],
        class,
    }
}

/// What making the lambda object `o` and returning it does to a thread: the
/// object is put on the heap (see `heap_with`), then returned.
pub open spec fn lambda_returned(t0: &Thread, t1: &Thread, r: Result<(), Error>, o: ObjectView) -> bool {
    let (h, p) = heap_with(t0.heap@, o);
    word_returned(t0, h, t1, p, r)
}

/// What a lambda combinator capturing the first `n` locals does (see
/// `make_lambda`): too few locals is a fault.
pub open spec fn make_lambda_effect(
    t0: &Thread,
    t1: &Thread,
    r: Result<(), Error>,
    n: nat,
    method: Seq<char>,
    desc: MethodDescriptorView,
    target_class: Seq<char>,
    target: Seq<char>,
    target_desc: MethodDescriptorView,
    class: Seq<char>,
) -> bool {
    let locals = t0.stackframe@.locals;
    if locals.len() < n {
        r == Err::<(), Error>(Error::Misc(Fault::LocalOutOfRange)) && *t1 == *t0
    } else {
        lambda_returned(
            t0,
            t1,
            r,
            made_lambda(class, method, desc, target_class, target, target_desc, locals.subrange(0, n as int)),
        )
    }
}

/// The class area `a` with the class at position `ci` marked initialized.
pub open spec fn marked_initialized(a: SharedClassAreaView, ci: int) -> SharedClassAreaView {
    SharedClassAreaView {
        classes: a.classes,
        states: a.states.update(ci, ClassStateView { initialized: true, ..a.states[ci] }),
    }
}

/// The class area `a` with the first static word of the class at position
/// `ci` set to `v`.
pub open spec fn first_static_set(a: SharedClassAreaView, ci: int, v: u32) -> SharedClassAreaView {
    SharedClassAreaView {
        classes: a.classes,
        states: a.states.update(ci, ClassStateView { static_data: a.states[ci].static_data.update(0, v), ..a.states[ci] }),
    }
}

/// `t1` is `t0` with only its class area changed, to `a`.
pub open spec fn classes_changed(t0: &Thread, t1: &Thread, a: SharedClassAreaView) -> bool {
    &&& t1.class_area@ == a
    &&& t1.heap@ == t0.heap@
    &&& t1.method_area@ == t0.method_area@
    &&& t1.stack == t0.stack
    &&& t1.stackframe == t0.stackframe
    &&& t1.pc_register == t0.pc_register
}

/// Returning the first static word of the class at position `ci`: a fault
/// when the class has no static words.
pub open spec fn static_returned(t0: &Thread, t1: &Thread, r: Result<(), Error>, ci: int) -> bool {
    let data = t0.class_area@.states[ci].static_data;
    if data.len() == 0 {
        r == Err::<(), Error>(Error::Misc(Fault::FieldOutOfRange)) && *t1 == *t0
    } else {
        word_returned(t0, t0.heap@, t1, data[0], r)
    }
}

/// What returning the first static word of the class `name` does once the
/// class is initialized (see `return_first_static`): when its initializer is
/// called instead, this step runs again after it. At program counter 0 an
/// initializer to call is refused.
pub open spec fn first_static_effect(t0: &Thread, t1: &Thread, r: Result<(), Error>, name: Seq<char>) -> bool {
    let ci = class_position(t0.class_area@.classes, name);
    if ci < 0 {
        (r matches Err(e) && e@ == ErrorView::ClassResolution(name)) && *t1 == *t0
    } else if t0.class_area@.states[ci].initialized {
        static_returned(t0, t1, r, ci)
    } else if lookup_entry(t0.method_area@, (name, clinit_name(), clinit_descriptor())) is Some {
        if t0.pc_register == 0 {
            r == Err::<(), Error>(Error::Misc(Fault::Overflow)) && *t1 == *t0
        } else {
            r is Ok && initialize_effect(*t0, *t1, true, ci as usize)
        }
    } else {
        exists|tm: Thread|
            #[trigger] classes_changed(t0, &tm, marked_initialized(t0.class_area@, ci)) && static_returned(
                &tm,
                t1,
                r,
                ci,
            )
    }
}

/// A returning step with a heap that has become `h` and a class area that
/// has become `a`: nothing comes back but the caller's frame.
pub open spec fn void_back(t0: &Thread, t1: &Thread, r: Result<(), Error>, h: HeapView, a: SharedClassAreaView) -> bool {
    if t0.stack@.len() == 0 {
        r == Err::<(), Error>(Error::ThreadKill)
    } else if has_caller(t0) {
        r is Ok && returned_frames(t0, t1, seq![]) && t1.heap@ == h && t1.class_area@ == a && t1.method_area@
            == t0.method_area@
    } else {
        r is Err
    }
}

/// What putting `o` on the heap as the first static word of the class
/// `name`, then returning nothing, does (a class initializer).
pub open spec fn static_made_effect(t0: &Thread, t1: &Thread, r: Result<(), Error>, h: HeapView, p: u32, name: Seq<char>) -> bool {
    let ci = class_position(t0.class_area@.classes, name);
    let rest_kept = t1.stack == t0.stack && t1.stackframe == t0.stackframe && t1.pc_register == t0.pc_register
        && t1.method_area == t0.method_area && t1.class_area == t0.class_area && t1.heap@ == h;
    if ci < 0 {
        (r matches Err(e) && e@ == ErrorView::ClassResolution(name)) && rest_kept
    } else if t0.class_area@.states[ci].static_data.len() == 0 {
        r == Err::<(), Error>(Error::Misc(Fault::FieldOutOfRange)) && rest_kept
    } else {
        void_back(t0, t1, r, h, first_static_set(t0.class_area@, ci, p))
    }
}

/// The lambda object of the identity function.
pub open spec fn identity_lambda() -> ObjectView {
    made_lambda(
        "java/util/function/Function"@,
        "apply"@,
        apply_view(),
        "java/util/function/Function"@,
        "$identity"@,
        apply_view(),
        seq![],
    )
}

/// Making a new `Optional` holding `value` (see `make_optional`): the
/// outcome, and the heap it leaves.
pub open spec fn optional_made(t0: &Thread, value: u32) -> (Result<u32, ErrorView>, HeapView) {
    let k = class_position(t0.class_area@.classes, "java/util/Optional"@);
    if k < 0 {
        (Err(ErrorView::ClassResolution("java/util/Optional"@)), t0.heap@)
    } else {
        let c = t0.class_area@.classes[k];
        if c.initial_fields.len() == 0 {
            (Err(ErrorView::Misc(Fault::FieldOutOfRange)), t0.heap@)
        } else {
            let o = ObjectView { fields: c.initial_fields.update(0, value), native_fields: seq![], class: c.this };
            match (if value != NONE { spec_inc_ref(t0.heap@, value) } else { Ok(t0.heap@) }) {
                Err(f) => (Err(ErrorView::Misc(f)), t0.heap@),
                Ok(h) => if h.contents.len() >= 0xFFFF_FFFF - crate::data::HEAP_START {
                    (Err(ErrorView::Misc(Fault::Overflow)), h)
                } else {
                    let (h2, p) = heap_with(h, o);
                    (Ok(p), h2)
                },
            }
        }
    }
}

/// Returning a new `Optional` holding `value` (see `optional_made`).
pub open spec fn optional_returned(t0: &Thread, t1: &Thread, r: Result<(), Error>, value: u32) -> bool {
    let (made, h) = optional_made(t0, value);
    match made {
        Err(e) => (r matches Err(er) && er@ == e) && t1.heap@ == h && t1.stack == t0.stack && t1.stackframe
            == t0.stackframe && t1.pc_register == t0.pc_register && t1.class_area == t0.class_area && t1.method_area
            == t0.method_area,
        Ok(p) => word_returned(t0, h, t1, p, r),
    }
}

/// What calling the method `name` (descriptor `desc`) that `obj` runs,
/// coming back at `addr`, does (see `call_on`).
pub open spec fn call_on_effect(
    t0: &Thread,
    t1: &Thread,
    r: Result<(), Error>,
    obj: u32,
    name: Seq<char>,
    desc: MethodDescriptorView,
    addr: u32,
) -> bool {
    match spec_resolve(t0.heap@, t0.class_area@.classes, t0.method_area@, obj, name, desc) {
        Err(e) => (r matches Err(er) && er@ == e) && *t1 == *t0,
        Ok((c, m)) => r is Ok && called_on(t0, t1, c, m, obj, addr),
    }
}

/// `()I`, the descriptor of `hashCode`.
pub open spec fn hash_code_view() -> MethodDescriptorView {
    MethodDescriptorView { parameter_size: 0, parameters: seq![], return_type: Some(FieldTypeView::Int) }
}

/// The value of the `Optional` object `ptr`: its first field word, `None`
/// for the word of an empty one.
pub open spec fn optional_value(h: HeapView, ptr: u32) -> Result<Option<u32>, Fault> {
    match object_at(h, ptr as int) {
        None => Err(Fault::NullPointer),
        Some(o) => if o.fields.len() == 0 {
            Err(Fault::FieldOutOfRange)
        } else if o.fields[0] == NONE {
            Ok(None)
        } else {
            Ok(Some(o.fields[0]))
        },
    }
}

/// The value of the `Optional` object `ptr` (see `optional_value`).
pub fn optional_inner(thread: &Thread, ptr: u32) -> (r: Result<Option<u32>, Error>)
    ensures
        match optional_value(thread.heap@, ptr) {
            Ok(v) => r == Ok::<Option<u32>, Error>(v),
            Err(f) => r == Err::<Option<u32>, Error>(Error::Misc(f)),
        },
{
    match thread.heap.get_field(ptr, 0) {
        Ok(v) => Ok(if v == NONE {
            None
        } else {
            Some(v)
        }),
        Err(f) => Err(Error::Misc(f)),
    }
}

/// A new `Optional` holding `value` (the word of an empty one for none),
/// which is counted once more when there is one (see `optional_made`).
pub fn make_optional(thread: &mut Thread, value: u32) -> (r: Result<u32, Error>)
    requires
        old(thread).wf(),
    ensures
        final(thread).wf(),
        final(thread).stack == old(thread).stack,
        final(thread).stackframe == old(thread).stackframe,
        final(thread).pc_register == old(thread).pc_register,
        final(thread).class_area == old(thread).class_area,
        final(thread).method_area == old(thread).method_area,
        ({
            let (made, h) = optional_made(old(thread), value);
            &&& final(thread).heap@ == h
            &&& match made {
                Ok(p) => r == Ok::<u32, Error>(p),
                Err(e) => r matches Err(er) && er@ == e,
            }
        }),
        r matches Ok(p) ==> optional_value(final(thread).heap@, p) == Ok::<Option<u32>, Fault>(
            if value == NONE {
                None
            } else {
                Some(value)
            },
        ),
{
    let name = chars("java/util/Optional");
    let ci = match class_index(thread, &name) {
        Ok(i) => i,
        Err(e) => {
            return Err(e);
        },
    };
    let class = thread.class_area.class_at(ci);
    let mut opt = Object::from_class(&class);
    if opt.fields.len() == 0 {
        return Err(Error::Misc(Fault::FieldOutOfRange));
    }
    opt.fields.set(0, value);
    if value != NONE {
        match thread.heap.inc_ref(value) {
            Ok(()) => {},
            Err(f) => {
                return Err(Error::Misc(f));
            },
        }
    }
    if thread.heap.len() >= (0xFFFF_FFFFu32 - crate::data::HEAP_START) as usize {
        return Err(Error::Misc(Fault::Overflow));
    }
    let ghost ov = opt@;
    let p = thread.heap.allocate(opt);
    proof {
        let h = thread.heap@;
        assert(h.contents.last() == Some(ov));
        assert(crate::heap::slot_of(h, p as int) == h.contents.len() - 1);
    }
    Ok(p)
}

/// Calls `name` (descriptor `desc`) that the object `obj` runs, with `obj`
/// as its first local and `second` as its next, coming back at `addr`.
pub(crate) fn call_with(thread: &mut Thread, obj: u32, name: &str, desc: &MethodDescriptor, addr: u32, second: u32) -> (r: Result<
    (),
    Error,
>)
    requires
        old(thread).wf(),
    ensures
        final(thread).wf(),
        call_with_effect(old(thread), final(thread), r, obj, name@, desc@, addr, second),
{
    let n = chars(name);
    match call_on(thread, obj, n.as_slice(), desc, addr) {
        Ok(()) => {},
        Err(e) => {
            return Err(e);
        },
    }
    if thread.stackframe.locals.len() < 2 {
        return Err(Error::Misc(Fault::LocalOutOfRange));
    }
    thread.stackframe.locals.set(1, second);
    Ok(())
}

/// Pops the word that a called method returned.
pub(crate) fn pop_returned(thread: &mut Thread) -> (r: Result<u32, Error>)
    requires
        old(thread).wf(),
    ensures
        final(thread).wf(),
        old(thread).stackframe@.stack.len() == 0 ==> r == Err::<u32, Error>(Error::Misc(Fault::StackUnderflow))
            && *final(thread) == *old(thread),
        old(thread).stackframe@.stack.len() > 0 ==> r == Ok::<u32, Error>(old(thread).stackframe@.stack.last())
            && popped_one(old(thread), final(thread)),
{
    if thread.stackframe.operand_stack.len() == 0 {
        return Err(Error::Misc(Fault::StackUnderflow));
    }
    let v = thread.stackframe.operand_stack.pop().unwrap();
    Ok(v)
}

/// The descriptor `(Ljava/lang/Object;)Ljava/lang/Object;` of `apply`.
fn apply_descriptor() -> (r: MethodDescriptor)
    ensures
        r@ == apply_view(),
{
    let ps = vec![any_type()];
    let r = descriptor(ps, Some(any_type()));
    assert(crate::class::field_types_view(ps@) =~= seq![any_view()]);
    proof {
        reveal_with_fuel(crate::class_loader::sum_sizes, 2);
    }
    r
}

/// The descriptor `(Ljava/lang/Object;)Z` of `test`.
fn test_descriptor() -> (r: MethodDescriptor)
    ensures
        r@ == test_view(),
{
    let ps = vec![any_type()];
    let r = descriptor(ps, Some(FieldType::Boolean));
    assert(crate::class::field_types_view(ps@) =~= seq![any_view()]);
    proof {
        reveal_with_fuel(crate::class_loader::sum_sizes, 2);
    }
    r
}

/// Makes a lambda object of class `class` implementing `method` (with
/// descriptor `desc`) by calling the static `target` of `target_class`
/// (descriptor `target_desc`), capturing the first `n` locals, and returns it.
pub(crate) fn make_lambda(
    thread: &mut Thread,
    n: usize,
    method: &str,
    desc: MethodDescriptor,
    target_class: &str,
    target: &str,
    target_desc: MethodDescriptor,
    class: &str,
) -> (r: Result<(), Error>)
    requires
        old(thread).wf(),
    ensures
        final(thread).wf(),
        make_lambda_effect(
            old(thread),
            final(thread),
            r,
            n as nat,
            method@,
            desc@,
            target_class@,
            target@,
            target_desc@,
            class@,
        ),
{
    if thread.stackframe.locals.len() < n {
        return Err(Error::Misc(Fault::LocalOutOfRange));
    }
    let mut captures: Vec<u32> = Vec::new();
    let mut i: usize = 0;
    while i < n
        invariant
            i <= n,
            n <= thread.stackframe.locals@.len(),
            captures@ == thread.stackframe@.locals.subrange(0, i as int),
        decreases n - i,
    {
        captures.push(thread.stackframe.locals[i]);
        i = i + 1;
        assert(captures@ =~= thread.stackframe@.locals.subrange(0, i as int));
    }
    let lambda = LambdaOverride {
        method_name: chars(method),
        method_descriptor: desc,
        invoke: MethodHandle::InvokeStatic { class: chars(target_class), name: chars(target), method_type: target_desc },
        captures,
    };
    proof {
        assert(captures@ =~= thread.stackframe@.locals.subrange(0, n as int));
    }
    let obj = Object { fields: Vec::new(), native_fields: vec![NativeField::Lambda(lambda)], class: chars(class) };
    proof {
        assert(obj@.fields =~= Seq::<u32>::empty());
        assert(obj@.native_fields =~= seq![NativeFieldView::Lambda(lambda@)]);
    }
    let p = thread.heap.allocate(obj);
    thread.return_word(p)
}

/// The position of the class named `name` (its name is `name`).
fn class_index(thread: &Thread, name: &Vec<char>) -> (r: Result<usize, Error>)
    requires
        thread.wf(),
    ensures
        match r {
            Ok(ci) => ci == class_position(thread.class_area@.classes, name@) && ci < thread.class_area@.classes.len()
                && thread.class_area@.states.len() == thread.class_area@.classes.len()
                && thread.class_area@.classes[ci as int].this == name@,
            Err(e) => e@ == ErrorView::ClassResolution(name@) && class_position(thread.class_area@.classes, name@) < 0,
        },
{
    proof {
        crate::data::lemma_find_key(thread.class_area@.classes.map_values(|c: ClassView| c.this), name@);
        thread.class_area.lemma_wf();
    }
    match thread.class_area.position(name.as_slice()) {
        Some(i) => Ok(i),
        None => Err(Error::class_resolution(name)),
    }
}

/// Returns the first static word of the class at position `ci`.
fn static_back(thread: &mut Thread, ci: usize) -> (r: Result<(), Error>)
    requires
        old(thread).wf(),
        ci < old(thread).class_area@.classes.len(),
    ensures
        final(thread).wf(),
        static_returned(old(thread), final(thread), r, ci as int),
{
    proof {
        thread.class_area.lemma_wf();
    }
    match thread.class_area.static_word(ci, 0) {
        Ok(v) => thread.return_word(v),
        Err(f) => Err(Error::Misc(f)),
    }
}

/// Returns the first static word of the class `name` once it is initialized
/// (see `first_static_effect`).
fn return_first_static(thread: &mut Thread, name: &str) -> (r: Result<(), Error>)
    requires
        old(thread).wf(),
    ensures
        final(thread).wf(),
        first_static_effect(old(thread), final(thread), r, name@),
{
    let n = chars(name);
    let ci = match class_index(thread, &n) {
        Ok(i) => i,
        Err(e) => {
            return Err(e);
        },
    };
    if thread.class_area.is_initialized(ci) {
        return static_back(thread, ci);
    }
    let init = crate::dynamic::clinit_chars();
    let none = no_args(None);
    assert(crate::class::field_types_view(none.parameters@) =~= Seq::<FieldTypeView>::empty());
    assert(none@ == clinit_descriptor());
    let found = thread.method_area.search(n.as_slice(), init.as_slice(), &none).is_some();
    if thread.pc_register == 0 {
        if found {
            return Err(Error::Misc(Fault::Overflow));
        }
        thread.class_area.set_initialized(ci);
        let ghost tm = *thread;
        let r = static_back(thread, ci);
        assert(classes_changed(old(thread), &tm, marked_initialized(old(thread).class_area@, ci as int)));
        r
    } else {
        if thread.maybe_initialize_class(ci) {
            return Ok(());
        }
        let ghost tm = *thread;
        let r = static_back(thread, ci);
        assert(classes_changed(old(thread), &tm, marked_initialized(old(thread).class_area@, ci as int)));
        r
    }
}

/// Sets the first static word of the class at position `ci` to `v`.
fn set_first_static(thread: &mut Thread, ci: usize, v: u32) -> (r: Result<(), Error>)
    requires
        old(thread).wf(),
        ci < old(thread).class_area@.classes.len(),
    ensures
        final(thread).wf(),
        old(thread).class_area@.states[ci as int].static_data.len() == 0 ==> r == Err::<(), Error>(
            Error::Misc(Fault::FieldOutOfRange),
        ) && *final(thread) == *old(thread),
        old(thread).class_area@.states[ci as int].static_data.len() > 0 ==> r is Ok && classes_changed(
            old(thread),
            final(thread),
            first_static_set(old(thread).class_area@, ci as int, v),
        ),
{
    proof {
        thread.class_area.lemma_wf();
    }
    if thread.class_area.static_word(ci, 0).is_err() {
        return Err(Error::Misc(Fault::FieldOutOfRange));
    }
    match thread.class_area.set_static_word(ci, 0, v) {
        Ok(()) => {
            assert(thread.class_area@ =~= first_static_set(old(thread).class_area@, ci as int, v));
            Ok(())
        },
        Err(f) => Err(Error::Misc(f)),
    }
}

/// `Function.$compose(first, second, x)`: step 0 calls `first.apply(x)`
/// (coming back at 1), step 1 calls `second.apply` on what came back (coming
/// back at 2), step 2 returns what came back.
pub fn function_compose_step(thread: &mut Thread) -> (r: Result<(), Error>)
    requires
        old(thread).wf(),
    ensures
        final(thread).wf(),
        function_compose_step_effect(old(thread), final(thread), r),
{
    if thread.stackframe.locals.len() < 3 {
        return Err(Error::Misc(Fault::LocalOutOfRange));
    }
    let first = thread.stackframe.locals[0];
    let second = thread.stackframe.locals[1];
    let x = thread.stackframe.locals[2];
    if thread.pc_register == 0 {
        call_with(thread, first, "apply", &apply_descriptor(), 1, x)
    } else if thread.pc_register == 1 || thread.pc_register == 2 {
        let v = match pop_returned(thread) {
            Ok(v) => v,
            Err(e) => {
                return Err(e);
            },
        };
        let ghost tp = *thread;
        let r = if thread.pc_register == 1 {
            call_with(thread, second, "apply", &apply_descriptor(), 2, v)
        } else {
            thread.return_word(v)
        };
        assert(popped_one(old(thread), &tp));
        r
    } else {
        Err(Error::Misc(Fault::PcOutOfRange))
    }
}

/// The descriptor of `$compose`.
fn compose_descriptor() -> (r: MethodDescriptor)
    ensures
        r@ == compose_view(),
{
    let ps = vec![object_type("java/util/function/Function"), object_type("java/util/function/Function"), any_type()];
    let r = descriptor(ps, Some(any_type()));
    assert(crate::class::field_types_view(ps@) =~= seq![function_view(), function_view(), any_view()]);
    proof {
        reveal_with_fuel(crate::class_loader::sum_sizes, 4);
    }
    r
}

/// `Function.compose(before)`: a function that applies `before`, then this.
pub fn function_compose(thread: &mut Thread) -> (r: Result<(), Error>)
    requires
        old(thread).wf(),
    ensures
        final(thread).wf(),
        function_compose_effect(old(thread), final(thread), r),
{
    if thread.stackframe.locals.len() < 2 {
        return Err(Error::Misc(Fault::LocalOutOfRange));
    }
    let this = thread.stackframe.locals[0];
    let before = thread.stackframe.locals[1];
    let lambda = LambdaOverride {
        method_name: chars("apply"),
        method_descriptor: apply_descriptor(),
        invoke: MethodHandle::InvokeStatic {
            class: chars("java/util/function/Function"),
            name: chars("$compose"),
            method_type: compose_descriptor(),
        },
        captures: vec![before, this],
    };
    let obj = Object {
        fields: Vec::new(),
        native_fields: vec![NativeField::Lambda(lambda)],
        class: chars("java/util/function/Function"),
    };
    proof {
        assert(obj@.fields =~= Seq::<u32>::empty());
        assert(obj@.native_fields =~= seq![NativeFieldView::Lambda(lambda@)]);
        assert(lambda@.captures =~= seq![before, this]);
    }
    let p = thread.heap.allocate(obj);
    thread.return_word(p)
}

/// `Function.andThen(after)`: a function that applies this, then `after`.
pub fn function_and_then(thread: &mut Thread) -> (r: Result<(), Error>)
    requires
        old(thread).wf(),
    ensures
        final(thread).wf(),
        function_and_then_effect(old(thread), final(thread), r),
{
    make_lambda(
        thread,
        2,
        "apply",
        apply_descriptor(),
        "java/util/function/Function",
        "$compose",
        compose_descriptor(),
        "java/util/function/Function",
    )
}

/// `Function.<clinit>`: the identity function object becomes the first
/// static word of `Function`.
pub fn function_clinit(thread: &mut Thread) -> (r: Result<(), Error>)
    requires
        old(thread).wf(),
    ensures
        final(thread).wf(),
        function_clinit_effect(old(thread), final(thread), r),
{
    let lambda = LambdaOverride {
        method_name: chars("apply"),
        method_descriptor: apply_descriptor(),
        invoke: MethodHandle::InvokeStatic {
            class: chars("java/util/function/Function"),
            name: chars("$identity"),
            method_type: apply_descriptor(),
        },
        captures: Vec::new(),
    };
    let obj = Object {
        fields: Vec::new(),
        native_fields: vec![NativeField::Lambda(lambda)],
        class: chars("java/util/function/Function"),
    };
    proof {
        assert(obj@.fields =~= Seq::<u32>::empty());
        assert(obj@.native_fields =~= seq![NativeFieldView::Lambda(lambda@)]);
        assert(lambda@.captures =~= Seq::<u32>::empty());
    }
    let p = thread.heap.allocate(obj);
    let name = chars("java/util/function/Function");
    put_static_and_return(thread, &name, p)
}

/// `Function.identity()`: the identity function object, once `Function` is
/// initialized (its initializer runs first, then this step again).
pub fn function_identity(thread: &mut Thread) -> (r: Result<(), Error>)
    requires
        old(thread).wf(),
    ensures
        final(thread).wf(),
        function_identity_effect(old(thread), final(thread), r),
{
    return_first_static(thread, "java/util/function/Function")
}

/// Sets the first static word of the class `name` to `p` and returns
/// nothing (the end of a class initializer).
fn put_static_and_return(thread: &mut Thread, name: &Vec<char>, p: u32) -> (r: Result<(), Error>)
    requires
        old(thread).wf(),
    ensures
        final(thread).wf(),
        static_made_effect(old(thread), final(thread), r, old(thread).heap@, p, name@),
{
    let ci = match class_index(thread, name) {
        Ok(i) => i,
        Err(e) => {
            return Err(e);
        },
    };
    match set_first_static(thread, ci, p) {
        Ok(()) => {},
        Err(e) => {
            return Err(e);
        },
    }
    thread.return_nothing()
}

/// `Function.$identity(x)`: `x`.
pub fn function_identity_step(thread: &mut Thread) -> (r: Result<(), Error>)
    requires
        old(thread).wf(),
    ensures
        final(thread).wf(),
        function_identity_step_effect(old(thread), final(thread), r),
{
    let x = arg(thread, 0)?;
    thread.return_word(x)
}

/// `Predicate.$negative(p, x)`: step 0 calls `p.test(x)` (coming back at
/// 1), step 1 returns 1 when that gave 0, else 0.
pub fn predicate_negative(thread: &mut Thread) -> (r: Result<(), Error>)
    requires
        old(thread).wf(),
    ensures
        final(thread).wf(),
        predicate_negative_effect(old(thread), final(thread), r),
{
    if thread.stackframe.locals.len() < 2 {
        return Err(Error::Misc(Fault::LocalOutOfRange));
    }
    let p = thread.stackframe.locals[0];
    let x = thread.stackframe.locals[1];
    if thread.pc_register == 0 {
        call_with(thread, p, "test", &test_descriptor(), 1, x)
    } else {
        let v = match pop_returned(thread) {
            Ok(v) => v,
            Err(e) => {
                return Err(e);
            },
        };
        let ghost tp = *thread;
        let r = thread.return_word(if v == 0 {
            1
        } else {
            0
        });
        assert(popped_one(old(thread), &tp));
        r
    }
}

/// The descriptor of `$negative`.
fn negative_descriptor() -> (r: MethodDescriptor)
    ensures
        r@ == negative_view(),
{
    let ps = vec![object_type("java/util/function/Predicate"), any_type()];
    let r = descriptor(ps, Some(FieldType::Boolean));
    assert(crate::class::field_types_view(ps@) =~= seq![predicate_view(), any_view()]);
    proof {
        reveal_with_fuel(crate::class_loader::sum_sizes, 3);
    }
    r
}

/// `Predicate.negate()` (and the static `negate(p)`): a predicate that
/// tests the opposite.
pub fn predicate_negate(thread: &mut Thread) -> (r: Result<(), Error>)
    requires
        old(thread).wf(),
    ensures
        final(thread).wf(),
        predicate_negate_effect(old(thread), final(thread), r),
{
    make_lambda(
        thread,
        1,
        "test",
        test_descriptor(),
        "java/util/function/Predicate",
        "$negative",
        negative_descriptor(),
        "java/util/function/Predicate",
    )
}

/// `Predicate.isEqual(target)`: a predicate that calls `Objects.equals` with
/// the target.
pub fn predicate_is_equal(thread: &mut Thread) -> (r: Result<(), Error>)
    requires
        old(thread).wf(),
    ensures
        final(thread).wf(),
        predicate_is_equal_effect(old(thread), final(thread), r),
{
    make_lambda(
        thread,
        1,
        "test",
        test_descriptor(),
        "java/util/Objects",
        "equals",
        test_descriptor(),
        "java/util/function/Predicate",
    )
}

/// `Predicate.$and(p, q, x)` (`is_and`) and `$or(p, q, x)`: step 0 calls
/// `p.test(x)` (coming back at 1); step 1 returns at once what decides (0
/// for and, 1 for or), else calls `q.test(x)` (coming back at 2); step 2
/// returns what came back.
pub fn predicate_both(thread: &mut Thread, is_and: bool) -> (r: Result<(), Error>)
    requires
        old(thread).wf(),
    ensures
        final(thread).wf(),
        predicate_both_effect(old(thread), final(thread), r, is_and),
{
    if thread.stackframe.locals.len() < 3 {
        return Err(Error::Misc(Fault::LocalOutOfRange));
    }
    let p = thread.stackframe.locals[0];
    let q = thread.stackframe.locals[1];
    let x = thread.stackframe.locals[2];
    if thread.pc_register == 0 {
        call_with(thread, p, "test", &test_descriptor(), 1, x)
    } else if thread.pc_register == 1 || thread.pc_register == 2 {
        let v = match pop_returned(thread) {
            Ok(v) => v,
            Err(e) => {
                return Err(e);
            },
        };
        let ghost tp = *thread;
        let r = if thread.pc_register == 1 {
            if is_and && v == 0 {
                thread.return_word(0)
            } else if !is_and && v == 1 {
                thread.return_word(1)
            } else {
                call_with(thread, q, "test", &test_descriptor(), 2, x)
            }
        } else {
            thread.return_word(v)
        };
        assert(popped_one(old(thread), &tp));
        r
    } else {
        Err(Error::Misc(Fault::PcOutOfRange))
    }
}

/// The descriptor of `$and` and `$or`.
fn both_descriptor() -> (r: MethodDescriptor)
    ensures
        r@ == both_view(),
{
    let ps = vec![object_type("java/util/function/Predicate"), object_type("java/util/function/Predicate"), any_type()];
    let r = descriptor(ps, Some(FieldType::Boolean));
    assert(crate::class::field_types_view(ps@) =~= seq![predicate_view(), predicate_view(), any_view()]);
    proof {
        reveal_with_fuel(crate::class_loader::sum_sizes, 4);
    }
    r
}

/// `Predicate.and(q)` (`is_and`) and `or(q)`: a predicate combining this
/// one and `q`.
pub fn predicate_combine(thread: &mut Thread, is_and: bool) -> (r: Result<(), Error>)
    requires
        old(thread).wf(),
    ensures
        final(thread).wf(),
        predicate_combine_effect(old(thread), final(thread), r, is_and),
{
    make_lambda(
        thread,
        2,
        "test",
        test_descriptor(),
        "java/util/function/Predicate",
        if is_and {
            "$and"
        } else {
            "$or"
        },
        both_descriptor(),
        "java/util/function/Predicate",
    )
}

/// `Optional.<clinit>`: the empty optional becomes the first static word of
/// `Optional`.
pub fn optional_clinit(thread: &mut Thread) -> (r: Result<(), Error>)
    requires
        old(thread).wf(),
    ensures
        final(thread).wf(),
        optional_clinit_effect(old(thread), final(thread), r),
{
    let p = match make_optional(thread, NONE) {
        Ok(p) => p,
        Err(e) => {
            return Err(e);
        },
    };
    let name = chars("java/util/Optional");
    put_static_and_return(thread, &name, p)
}

/// The empty optional, once `Optional` is initialized (its initializer runs
/// first, then the step again): returned.
fn return_empty(thread: &mut Thread) -> (r: Result<(), Error>)
    requires
        old(thread).wf(),
    ensures
        final(thread).wf(),
        first_static_effect(old(thread), final(thread), r, "java/util/Optional"@),
{
    return_first_static(thread, "java/util/Optional")
}

/// `Optional.empty()`.
pub fn optional_empty(thread: &mut Thread) -> (r: Result<(), Error>)
    requires
        old(thread).wf(),
    ensures
        final(thread).wf(),
        optional_empty_effect(old(thread), final(thread), r),
{
    return_empty(thread)
}

/// `Optional.of(x)`: a new optional holding `x`.
pub fn optional_of(thread: &mut Thread) -> (r: Result<(), Error>)
    requires
        old(thread).wf(),
    ensures
        final(thread).wf(),
        optional_of_effect(old(thread), final(thread), r),
{
    let x = match arg(thread, 0) {
        Ok(x) => x,
        Err(e) => {
            return Err(e);
        },
    };
    let p = match make_optional(thread, x) {
        Ok(p) => p,
        Err(e) => {
            return Err(e);
        },
    };
    thread.return_word(p)
}

/// `Optional.ofNullable(x)`: a new optional holding `x`, or the empty one
/// for null.
pub fn optional_of_nullable(thread: &mut Thread) -> (r: Result<(), Error>)
    requires
        old(thread).wf(),
    ensures
        final(thread).wf(),
        optional_of_nullable_effect(old(thread), final(thread), r),
{
    let x = match arg(thread, 0) {
        Ok(x) => x,
        Err(e) => {
            return Err(e);
        },
    };
    if x != NULL {
        let p = match make_optional(thread, x) {
            Ok(p) => p,
            Err(e) => {
                return Err(e);
            },
        };
        return thread.return_word(p);
    }
    return_empty(thread)
}

/// Whether the object `ptr` is an instance of `java/util/Optional`.
fn is_optional(thread: &Thread, ptr: u32) -> (r: Result<bool, Error>)
    requires
        thread.wf(),
    ensures
        match object_at(thread.heap@, ptr as int) {
            None => r == Err::<bool, Error>(Error::Misc(Fault::NullPointer)),
            Some(o) => r == Ok::<bool, Error>(o.class == "java/util/Optional"@),
        },
{
    let class = match thread.heap.get(ptr as usize) {
        Some(o) => crate::text::copy_chars(&o.class),
        None => {
            return Err(Error::Misc(Fault::NullPointer));
        },
    };
    let name = chars("java/util/Optional");
    Ok(crate::text::chars_eq(class.as_slice(), name.as_slice()))
}

/// `Optional.equals(other)`: 0 when `other` is no `Optional`; 1 when both
/// are empty, 0 when one is; else, at step 0, it calls `equals` on this
/// value with the other's (coming back at 1), and step 1 returns what came
/// back.
pub fn optional_equals(thread: &mut Thread) -> (r: Result<(), Error>)
    requires
        old(thread).wf(),
    ensures
        final(thread).wf(),
        optional_equals_effect(old(thread), final(thread), r),
{
    if thread.stackframe.locals.len() < 2 {
        return Err(Error::Misc(Fault::LocalOutOfRange));
    }
    let this = thread.stackframe.locals[0];
    let other = thread.stackframe.locals[1];
    if thread.pc_register != 0 {
        let v = match pop_returned(thread) {
            Ok(v) => v,
            Err(e) => {
                return Err(e);
            },
        };
        let ghost tp = *thread;
        let r = thread.return_word(v);
        assert(popped_one(old(thread), &tp));
        return r;
    }
    match is_optional(thread, other) {
        Ok(true) => {},
        Ok(false) => {
            return thread.return_word(0);
        },
        Err(e) => {
            return Err(e);
        },
    }
    let other_inner = match optional_inner(thread, other) {
        Ok(v) => v,
        Err(e) => {
            return Err(e);
        },
    };
    let this_inner = match optional_inner(thread, this) {
        Ok(v) => v,
        Err(e) => {
            return Err(e);
        },
    };
    match (this_inner, other_inner) {
        (None, None) => thread.return_word(1),
        (Some(a), Some(b)) => call_with(thread, a, "equals", &test_descriptor(), 1, b),
        _ => thread.return_word(0),
    }
}

/// `Optional.filter(p)`: the empty optional for an empty one; else, at step
/// 0, it calls `p.test` on the value (coming back at 1), and step 1 returns
/// this optional when that gave anything but 0 (the answer stays on the
/// stack), else the empty one.
pub fn optional_filter(thread: &mut Thread) -> (r: Result<(), Error>)
    requires
        old(thread).wf(),
    ensures
        final(thread).wf(),
        optional_filter_effect(old(thread), final(thread), r),
{
    if thread.stackframe.locals.len() < 2 {
        return Err(Error::Misc(Fault::LocalOutOfRange));
    }
    let this = thread.stackframe.locals[0];
    let predicate = thread.stackframe.locals[1];
    if thread.pc_register == 0 {
        match optional_inner(thread, this) {
            Err(e) => Err(e),
            Ok(None) => return_empty(thread),
            Ok(Some(v)) => call_with(thread, predicate, "test", &test_descriptor(), 1, v),
        }
    } else {
        let n = thread.stackframe.operand_stack.len();
        if n == 0 {
            return Err(Error::Misc(Fault::StackUnderflow));
        }
        let result = thread.stackframe.operand_stack[n - 1];
        if result == 0 {
            return return_empty(thread);
        }
        thread.return_word(this)
    }
}

/// `Optional.hashCode()`: 0 when empty; else, at step 0, it calls the
/// value's `hashCode` (coming back at 1), and step 1 returns what came back.
pub fn optional_hash_code(thread: &mut Thread) -> (r: Result<(), Error>)
    requires
        old(thread).wf(),
    ensures
        final(thread).wf(),
        optional_hash_code_effect(old(thread), final(thread), r),
{
    if thread.stackframe.locals.len() == 0 {
        return Err(Error::Misc(Fault::LocalOutOfRange));
    }
    let this = thread.stackframe.locals[0];
    if thread.pc_register == 0 {
        match optional_inner(thread, this) {
            Err(e) => Err(e),
            Ok(None) => thread.return_word(0),
            Ok(Some(v)) => {
                let name = chars("hashCode");
                let d = no_args(Some(FieldType::Int));
                assert(d@.parameters =~= Seq::<FieldTypeView>::empty());
                assert(d@ == hash_code_view());
                call_on(thread, v, name.as_slice(), &d, 1)
            },
        }
    } else {
        let v = match pop_returned(thread) {
            Ok(v) => v,
            Err(e) => {
                return Err(e);
            },
        };
        let ghost tp = *thread;
        let r = thread.return_word(v);
        assert(popped_one(old(thread), &tp));
        r
    }
}

/// `Optional.isEmpty()` (`empty`) and `isPresent()`: whether the optional
/// holds no value (or one), as a word.
pub fn optional_check(thread: &mut Thread, empty: bool) -> (r: Result<(), Error>)
    requires
        old(thread).wf(),
    ensures
        final(thread).wf(),
        optional_check_effect(old(thread), final(thread), r, empty),
{
    let this = arg(thread, 0)?;
    let v = optional_inner(thread, this)?;
    let answer = v.is_none() == empty;
    thread.return_word(if answer {
        1
    } else {
        0
    })
}

/// `Optional.toString()`: `None` when empty; else, at step 0, it calls the
/// value's `toString` (coming back at 1), and step 1 returns `Some(`, that
/// text, `)`.
pub fn optional_to_string(thread: &mut Thread) -> (r: Result<(), Error>)
    requires
        old(thread).wf(),
    ensures
        final(thread).wf(),
        optional_to_string_effect(old(thread), final(thread), r),
{
    if thread.stackframe.locals.len() == 0 {
        return Err(Error::Misc(Fault::LocalOutOfRange));
    }
    let this = thread.stackframe.locals[0];
    if thread.pc_register == 0 {
        match optional_inner(thread, this) {
            Err(e) => Err(e),
            Ok(None) => crate::native::object::return_text(thread, chars("None")),
            Ok(Some(v)) => {
                let name = chars("toString");
                call_on(thread, v, name.as_slice(), &crate::native::string::to_string_descriptor(), 1)
            },
        }
    } else {
        let s = match pop_returned(thread) {
            Ok(v) => v,
            Err(e) => {
                return Err(e);
            },
        };
        let ghost tp = *thread;
        let inner = match crate::native::string::text_of(&thread.heap, s) {
            Ok(t) => t,
            Err(e) => {
                assert(popped_one(old(thread), &tp));
                return Err(e);
            },
        };
        let mut out = chars("Some(");
        let ghost start = out@;
        let mut k: usize = 0;
        while k < inner.len()
            invariant
                k <= inner@.len(),
                out@ == start + inner@.subrange(0, k as int),
            decreases inner@.len() - k,
        {
            out.push(inner[k]);
            k = k + 1;
            assert(out@ =~= start + inner@.subrange(0, k as int));
        }
        out.push(')');
        assert(out@ =~= "Some("@ + inner@ + seq![')']);
        let r = crate::native::object::return_text(thread, out);
        assert(popped_one(old(thread), &tp));
        r
    }
}

/// The methods of `java/util/function/Function`, in the order they are filed.
pub open spec fn lib_function_methods() -> Seq<crate::raw_class::RawMethodView> {
    seq![
        crate::native::abstract_view("apply"@, apply_view()),
        crate::native::native_view(PUBLIC_NATIVE, "andThen"@, crate::native::mdesc(seq![crate::class::FieldTypeView::Object("java/util/function/Function"@)], Some(crate::class::FieldTypeView::Object("java/util/function/Function"@))), FUNCTION_AND_THEN),
        crate::native::native_view(PUBLIC_NATIVE, "compose"@, crate::native::mdesc(seq![crate::class::FieldTypeView::Object("java/util/function/Function"@)], Some(crate::class::FieldTypeView::Object("java/util/function/Function"@))), FUNCTION_COMPOSE),
        crate::native::native_view(PUBLIC_STATIC_NATIVE, "identity"@, crate::native::mdesc(seq![], Some(crate::class::FieldTypeView::Object("java/util/function/Function"@))), FUNCTION_IDENTITY),
        crate::native::native_view(PUBLIC_STATIC_NATIVE, "$identity"@, apply_view(), FUNCTION_IDENTITY_STEP),
        crate::native::native_view(0x0108, "<clinit>"@, crate::native::mdesc(seq![], None), FUNCTION_CLINIT),
        crate::native::native_view(PUBLIC_STATIC_NATIVE, "$compose"@, compose_view(), FUNCTION_COMPOSE_STEP),
    ]
}

/// `java/util/function/Function` before its methods are listed.
pub open spec fn lib_function_base() -> crate::raw_class::RawClassView {
    crate::raw_class::RawClassView {
        statics: seq![(crate::native::lib_field(0x0009, "$IDENTITY"@, crate::class::FieldTypeView::Object("java/util/function/Function"@)), 0usize)],
        static_data: seq![0, 0],
        ..crate::raw_class::new_class_view(0x0501, "java/util/function/Function"@, "java/lang/Object"@)
    }
}

/// The methods of `java/util/function/Predicate`, in the order they are filed.
pub open spec fn lib_predicate_methods() -> Seq<crate::raw_class::RawMethodView> {
    seq![
        crate::native::abstract_view("test"@, test_view()),
        crate::native::native_view(0x0009, "$negative"@, negative_view(), PREDICATE_NEGATIVE),
        crate::native::native_view(PUBLIC_STATIC_NATIVE, "negate"@, crate::native::mdesc(seq![crate::class::FieldTypeView::Object("java/util/function/Predicate"@)], Some(crate::class::FieldTypeView::Object("java/util/function/Predicate"@))), PREDICATE_NEGATE),
        crate::native::native_view(PUBLIC_STATIC_NATIVE, "isEqual"@, crate::native::mdesc(seq![crate::class::FieldTypeView::Object("java/lang/Object"@)], Some(crate::class::FieldTypeView::Object("java/util/function/Predicate"@))), PREDICATE_IS_EQUAL),
        crate::native::native_view(PUBLIC_NATIVE, "negate"@, crate::native::mdesc(seq![], Some(crate::class::FieldTypeView::Object("java/util/function/Predicate"@))), PREDICATE_NEGATE),
        crate::native::native_view(PUBLIC_STATIC_NATIVE, "$and"@, both_view(), PREDICATE_AND_STEP),
        crate::native::native_view(PUBLIC_STATIC_NATIVE, "$or"@, both_view(), PREDICATE_OR_STEP),
        crate::native::native_view(PUBLIC_NATIVE, "and"@, crate::native::mdesc(seq![crate::class::FieldTypeView::Object("java/util/function/Predicate"@)], Some(crate::class::FieldTypeView::Object("java/util/function/Predicate"@))), PREDICATE_AND),
        crate::native::native_view(PUBLIC_NATIVE, "or"@, crate::native::mdesc(seq![crate::class::FieldTypeView::Object("java/util/function/Predicate"@)], Some(crate::class::FieldTypeView::Object("java/util/function/Predicate"@))), PREDICATE_OR),
    ]
}

/// `java/util/function/Predicate` before its methods are listed.
pub open spec fn lib_predicate_base() -> crate::raw_class::RawClassView {
    crate::raw_class::new_class_view(PUBLIC_NATIVE, "java/util/function/Predicate"@, "java/lang/Object"@)
}

/// The methods of `java/util/Optional`, in the order they are filed.
pub open spec fn lib_optional_methods() -> Seq<crate::raw_class::RawMethodView> {
    seq![
        crate::native::native_view(PUBLIC_STATIC_NATIVE, "empty"@, crate::native::mdesc(seq![], Some(crate::class::FieldTypeView::Object("java/util/Optional"@))), OPTIONAL_EMPTY),
        crate::native::native_view(PUBLIC_STATIC_NATIVE, "of"@, crate::native::mdesc(seq![crate::class::FieldTypeView::Object("java/lang/Object"@)], Some(crate::class::FieldTypeView::Object("java/util/Optional"@))), OPTIONAL_OF),
        crate::native::native_view(PUBLIC_STATIC_NATIVE, "ofNullable"@, crate::native::mdesc(seq![crate::class::FieldTypeView::Object("java/lang/Object"@)], Some(crate::class::FieldTypeView::Object("java/util/Optional"@))), OPTIONAL_OF_NULLABLE),
        crate::native::native_view(PUBLIC_NATIVE, "isEmpty"@, crate::native::mdesc(seq![], Some(crate::class::FieldTypeView::Boolean)), OPTIONAL_IS_EMPTY),
        crate::native::native_view(PUBLIC_NATIVE, "isPresent"@, crate::native::mdesc(seq![], Some(crate::class::FieldTypeView::Boolean)), OPTIONAL_IS_PRESENT),
        crate::native::native_view(PUBLIC_NATIVE, "toString"@, crate::native::mdesc(seq![], Some(crate::class::FieldTypeView::Object("java/lang/String"@))), OPTIONAL_TO_STRING),
        crate::native::native_view(PUBLIC_NATIVE, "hashCode"@, crate::native::mdesc(seq![], Some(crate::class::FieldTypeView::Int)), OPTIONAL_HASH_CODE),
        crate::native::native_view(PUBLIC_NATIVE, "equals"@, test_view(), OPTIONAL_EQUALS),
        crate::native::native_view(PUBLIC_STATIC_NATIVE, "<clinit>"@, crate::native::mdesc(seq![], None), OPTIONAL_CLINIT),
        crate::native::native_view(PUBLIC_NATIVE, "filter"@, crate::native::mdesc(seq![crate::class::FieldTypeView::Object("java/util/function/Predicate"@)], Some(crate::class::FieldTypeView::Object("java/util/Optional"@))), OPTIONAL_FILTER),
    ]
}

/// `java/util/Optional` before its methods are listed.
pub open spec fn lib_optional_base() -> crate::raw_class::RawClassView {
    crate::raw_class::RawClassView {
        fields: seq![(crate::native::lib_field(0x0001, "$value"@, crate::class::FieldTypeView::Object("java/lang/Object"@)), 0usize)],
        field_size: 1,
        statics: seq![(crate::native::lib_field(0x0009, "$EMPTY"@, crate::class::FieldTypeView::Object("java/lang/Object"@)), 0usize)],
        static_data: seq![0],
        ..crate::raw_class::new_class_view(PUBLIC_NATIVE, "java/util/Optional"@, "java/lang/Object"@)
    }
}

/// The methods of `java/util/function/Consumer`, in the order they are filed.
pub open spec fn lib_consumer_methods() -> Seq<crate::raw_class::RawMethodView> {
    seq![
        crate::native::abstract_view("accept"@, crate::native::mdesc(seq![crate::class::FieldTypeView::Object("java/lang/Object"@)], None)),
    ]
}

/// `java/util/function/Consumer` before its methods are listed.
pub open spec fn lib_consumer_base() -> crate::raw_class::RawClassView {
    crate::raw_class::new_class_view(0x0501, "java/util/function/Consumer"@, "java/lang/Object"@)
}

/// The method area after filing the methods of `Function`, `Predicate`, `Optional` and `Consumer`, in order.
pub open spec fn lib_functions_methods_filed(ma: Seq<(crate::data::MethodKey, (Seq<char>, crate::raw_class::RawMethodView))>) -> Seq<(crate::data::MethodKey, (Seq<char>, crate::raw_class::RawMethodView))> {
    let a = ma;
    let a = crate::native::file_methods(a, "java/util/function/Function"@, lib_function_methods());
    let a = crate::native::file_methods(a, "java/util/function/Predicate"@, lib_predicate_methods());
    let a = crate::native::file_methods(a, "java/util/Optional"@, lib_optional_methods());
    let a = crate::native::file_methods(a, "java/util/function/Consumer"@, lib_consumer_methods());
    a
}

/// The class area after filing `Function`, `Predicate`, `Optional` and `Consumer`, in order.
pub open spec fn lib_functions_classes_filed(ca: Seq<(Seq<char>, crate::raw_class::RawClassView)>) -> Seq<(Seq<char>, crate::raw_class::RawClassView)> {
    let a = ca;
    let a = crate::data::insert_entry(a, "java/util/function/Function"@, crate::native::with_method_names(lib_function_base(), lib_function_methods()));
    let a = crate::data::insert_entry(a, "java/util/function/Predicate"@, crate::native::with_method_names(lib_predicate_base(), lib_predicate_methods()));
    let a = crate::data::insert_entry(a, "java/util/Optional"@, crate::native::with_method_names(lib_optional_base(), lib_optional_methods()));
    let a = crate::data::insert_entry(a, "java/util/function/Consumer"@, crate::native::with_method_names(lib_consumer_base(), lib_consumer_methods()));
    a
}

/// Files `Function`, `Predicate`, `Optional` and `Consumer`, with their
/// native methods.
pub fn add_functions(
    method_area: &mut WorkingMethodArea,
    class_area: &mut WorkingClassArea,
    Ghost(start): Ghost<Seq<(Seq<char>, RawClassView)>>,
)
    requires
        natives_filed(old(method_area)@, old(class_area)@, start),
    ensures
        final(method_area)@ == lib_functions_methods_filed(old(method_area)@),
        final(class_area)@ == lib_functions_classes_filed(old(class_area)@),
        natives_filed(final(method_area)@, final(class_area)@, start),
        keys_kept(old(class_area)@, final(class_area)@),
        crate::data::lookup_entry(final(class_area)@, "java/util/function/Function"@) is Some,
        crate::data::lookup_entry(final(class_area)@, "java/util/function/Predicate"@) is Some,
        crate::data::lookup_entry(final(class_area)@, "java/util/Optional"@) is Some,
        crate::data::lookup_entry(final(class_area)@, "java/util/function/Consumer"@) is Some,
{
    let mut function = library_class(0x0501, "java/util/function/Function", "java/lang/Object");
    function.static_data.push(0);
    function.static_data.push(0);
    function.statics.push((library_field(0x0009, "$IDENTITY", object_type("java/util/function/Function")), 0));
    let mut ms: Vec<RawMethod> = Vec::new();
    add_method(&mut ms, abstract_method("apply", apply_descriptor()));
    add_method(
        &mut ms,
        native_method(PUBLIC_NATIVE, "andThen", descriptor(vec![object_type("java/util/function/Function")], Some(object_type("java/util/function/Function"))), FUNCTION_AND_THEN),
    );
    add_method(
        &mut ms,
        native_method(
            PUBLIC_NATIVE,
            "compose",
            descriptor(vec![object_type("java/util/function/Function")], Some(object_type("java/util/function/Function"))),
            FUNCTION_COMPOSE,
        ),
    );
    add_method(
        &mut ms,
        native_method(PUBLIC_STATIC_NATIVE, "identity", no_args(Some(object_type("java/util/function/Function"))), FUNCTION_IDENTITY),
    );
    add_method(&mut ms, native_method(PUBLIC_STATIC_NATIVE, "$identity", apply_descriptor(), FUNCTION_IDENTITY_STEP));
    add_method(&mut ms, native_method(0x0108, "<clinit>", no_args(None), FUNCTION_CLINIT));
    add_method(&mut ms, native_method(PUBLIC_STATIC_NATIVE, "$compose", compose_descriptor(), FUNCTION_COMPOSE_STEP));
    proof {
        assert(crate::raw_class::raw_methods_view(ms@) =~~= lib_function_methods());
        assert(function@.fields =~= lib_function_base().fields);
        assert(function@.statics =~= lib_function_base().statics);
        assert(function@.static_data =~= lib_function_base().static_data);
        assert(function@ =~~= lib_function_base());
    }
    file_with_methods(function, ms, method_area, class_area, Ghost(start));

    let predicate = library_class(PUBLIC_NATIVE, "java/util/function/Predicate", "java/lang/Object");
    let mut ms: Vec<RawMethod> = Vec::new();
    add_method(&mut ms, abstract_method("test", test_descriptor()));
    add_method(&mut ms, native_method(0x0009, "$negative", negative_descriptor(), PREDICATE_NEGATIVE));
    add_method(
        &mut ms,
        native_method(
            PUBLIC_STATIC_NATIVE,
            "negate",
            descriptor(vec![object_type("java/util/function/Predicate")], Some(object_type("java/util/function/Predicate"))),
            PREDICATE_NEGATE,
        ),
    );
    add_method(
        &mut ms,
        native_method(
            PUBLIC_STATIC_NATIVE,
            "isEqual",
            descriptor(vec![any_type()], Some(object_type("java/util/function/Predicate"))),
            PREDICATE_IS_EQUAL,
        ),
    );
    add_method(
        &mut ms,
        native_method(PUBLIC_NATIVE, "negate", no_args(Some(object_type("java/util/function/Predicate"))), PREDICATE_NEGATE),
    );
    add_method(&mut ms, native_method(PUBLIC_STATIC_NATIVE, "$and", both_descriptor(), PREDICATE_AND_STEP));
    add_method(&mut ms, native_method(PUBLIC_STATIC_NATIVE, "$or", both_descriptor(), PREDICATE_OR_STEP));
    add_method(
        &mut ms,
        native_method(
            PUBLIC_NATIVE,
            "and",
            descriptor(vec![object_type("java/util/function/Predicate")], Some(object_type("java/util/function/Predicate"))),
            PREDICATE_AND,
        ),
    );
    add_method(
        &mut ms,
        native_method(
            PUBLIC_NATIVE,
            "or",
            descriptor(vec![object_type("java/util/function/Predicate")], Some(object_type("java/util/function/Predicate"))),
            PREDICATE_OR,
        ),
    );
    proof {
        assert(crate::raw_class::raw_methods_view(ms@) =~~= lib_predicate_methods());
        assert(predicate@ =~~= lib_predicate_base());
    }
    file_with_methods(predicate, ms, method_area, class_area, Ghost(start));

    let mut optional = library_class(PUBLIC_NATIVE, "java/util/Optional", "java/lang/Object");
    optional.fields.push((library_field(0x0001, "$value", any_type()), 0));
    optional.field_size = 1;
    optional.statics.push((library_field(0x0009, "$EMPTY", any_type()), 0));
    optional.static_data.push(0);
    let mut ms: Vec<RawMethod> = Vec::new();
    add_method(&mut ms, native_method(PUBLIC_STATIC_NATIVE, "empty", no_args(Some(object_type("java/util/Optional"))), OPTIONAL_EMPTY));
    add_method(
        &mut ms,
        native_method(PUBLIC_STATIC_NATIVE, "of", descriptor(vec![any_type()], Some(object_type("java/util/Optional"))), OPTIONAL_OF),
    );
    add_method(
        &mut ms,
        native_method(
            PUBLIC_STATIC_NATIVE,
            "ofNullable",
            descriptor(vec![any_type()], Some(object_type("java/util/Optional"))),
            OPTIONAL_OF_NULLABLE,
        ),
    );
    add_method(&mut ms, native_method(PUBLIC_NATIVE, "isEmpty", no_args(Some(FieldType::Boolean)), OPTIONAL_IS_EMPTY));
    add_method(&mut ms, native_method(PUBLIC_NATIVE, "isPresent", no_args(Some(FieldType::Boolean)), OPTIONAL_IS_PRESENT));
    add_method(&mut ms, native_method(PUBLIC_NATIVE, "toString", no_args(Some(string_type())), OPTIONAL_TO_STRING));
    add_method(&mut ms, native_method(PUBLIC_NATIVE, "hashCode", no_args(Some(FieldType::Int)), OPTIONAL_HASH_CODE));
    add_method(&mut ms, native_method(PUBLIC_NATIVE, "equals", test_descriptor(), OPTIONAL_EQUALS));
    add_method(&mut ms, native_method(PUBLIC_STATIC_NATIVE, "<clinit>", no_args(None), OPTIONAL_CLINIT));
    add_method(
        &mut ms,
        native_method(
            PUBLIC_NATIVE,
            "filter",
            descriptor(vec![object_type("java/util/function/Predicate")], Some(object_type("java/util/Optional"))),
            OPTIONAL_FILTER,
        ),
    );
    proof {
        assert(crate::raw_class::raw_methods_view(ms@) =~~= lib_optional_methods());
        assert(optional@.fields =~= lib_optional_base().fields);
        assert(optional@.statics =~= lib_optional_base().statics);
        assert(optional@.static_data =~= lib_optional_base().static_data);
        assert(optional@ =~~= lib_optional_base());
    }
    file_with_methods(optional, ms, method_area, class_area, Ghost(start));

    let consumer = library_class(0x0501, "java/util/function/Consumer", "java/lang/Object");
    let mut ms: Vec<RawMethod> = Vec::new();
    add_method(&mut ms, abstract_method("accept", descriptor(vec![any_type()], None)));
    proof {
        assert(crate::raw_class::raw_methods_view(ms@) =~~= lib_consumer_methods());
        assert(consumer@ =~~= lib_consumer_base());
    }
    file_with_methods(consumer, ms, method_area, class_area, Ghost(start));
}


/// What `function_compose_step` does to a thread (see that function).
pub open spec fn function_compose_step_effect(t0: &Thread, t1: &Thread, r: Result<(), Error>) -> bool {
    &&& ({
        let l = t0.stackframe@.locals;
        let st = t0.stackframe@.stack;
        let pc = t0.pc_register;
        if l.len() < 3 {
            r == Err::<(), Error>(Error::Misc(Fault::LocalOutOfRange)) && *t1 == *t0
        } else if pc == 0 {
            call_with_effect(t0, t1, r, l[0], "apply"@, apply_view(), 1, l[2])
        } else if pc > 2 {
            r == Err::<(), Error>(Error::Misc(Fault::PcOutOfRange)) && *t1 == *t0
        } else if st.len() == 0 {
            r == Err::<(), Error>(Error::Misc(Fault::StackUnderflow)) && *t1 == *t0
        } else if pc == 1 {
            exists|tp: Thread|
                #[trigger] popped_one(t0, &tp) && call_with_effect(
                    &tp,
                    t1,
                    r,
                    l[1],
                    "apply"@,
                    apply_view(),
                    2,
                    st.last(),
                )
        } else {
            exists|tp: Thread|
                #[trigger] popped_one(t0, &tp) && word_returned(&tp, tp.heap@, t1, st.last(), r)
        }
    })
}

/// What `function_compose` does to a thread (see that function).
pub open spec fn function_compose_effect(t0: &Thread, t1: &Thread, r: Result<(), Error>) -> bool {
    &&& ({
        let l = t0.stackframe@.locals;
        if l.len() < 2 {
            r == Err::<(), Error>(Error::Misc(Fault::LocalOutOfRange)) && *t1 == *t0
        } else {
            lambda_returned(
                t0,
                t1,
                r,
                made_lambda(
                    "java/util/function/Function"@,
                    "apply"@,
                    apply_view(),
                    "java/util/function/Function"@,
                    "$compose"@,
                    compose_view(),
                    seq![l[1], l[0]],
                ),
            )
        }
    })
}

/// What `function_and_then` does to a thread (see that function).
pub open spec fn function_and_then_effect(t0: &Thread, t1: &Thread, r: Result<(), Error>) -> bool {
    &&& make_lambda_effect(t0, t1, r, 2, "apply"@, apply_view(), "java/util/function/Function"@, "$compose"@, compose_view(), "java/util/function/Function"@)
}

/// What `function_clinit` does to a thread (see that function).
pub open spec fn function_clinit_effect(t0: &Thread, t1: &Thread, r: Result<(), Error>) -> bool {
    &&& ({
        let (h, p) = heap_with(t0.heap@, identity_lambda());
        static_made_effect(t0, t1, r, h, p, "java/util/function/Function"@)
    })
}

/// What `function_identity` does to a thread (see that function).
pub open spec fn function_identity_effect(t0: &Thread, t1: &Thread, r: Result<(), Error>) -> bool {
    &&& first_static_effect(t0, t1, r, "java/util/function/Function"@)
}

/// What `function_identity_step` does to a thread (see that function).
pub open spec fn function_identity_step_effect(t0: &Thread, t1: &Thread, r: Result<(), Error>) -> bool {
    &&& t0.stackframe@.locals.len() == 0 ==> r == Err::<(), Error>(Error::Misc(Fault::LocalOutOfRange))
    &&& t0.stackframe@.locals.len() > 0 ==> word_returned(
        t0,
        t0.heap@,
        t1,
        t0.stackframe@.locals[0],
        r,
    )
}

/// What `predicate_negative` does to a thread (see that function).
pub open spec fn predicate_negative_effect(t0: &Thread, t1: &Thread, r: Result<(), Error>) -> bool {
    &&& ({
        let l = t0.stackframe@.locals;
        let st = t0.stackframe@.stack;
        if l.len() < 2 {
            r == Err::<(), Error>(Error::Misc(Fault::LocalOutOfRange)) && *t1 == *t0
        } else if t0.pc_register == 0 {
            call_with_effect(t0, t1, r, l[0], "test"@, test_view(), 1, l[1])
        } else if st.len() == 0 {
            r == Err::<(), Error>(Error::Misc(Fault::StackUnderflow)) && *t1 == *t0
        } else {
            exists|tp: Thread|
                #[trigger] popped_one(t0, &tp) && word_returned(
                    &tp,
                    tp.heap@,
                    t1,
                    if st.last() == 0 {
                        1u32
                    } else {
                        0u32
                    },
                    r,
                )
        }
    })
}

/// What `predicate_negate` does to a thread (see that function).
pub open spec fn predicate_negate_effect(t0: &Thread, t1: &Thread, r: Result<(), Error>) -> bool {
    &&& make_lambda_effect(t0, t1, r, 1, "test"@, test_view(), "java/util/function/Predicate"@, "$negative"@, negative_view(), "java/util/function/Predicate"@)
}

/// What `predicate_is_equal` does to a thread (see that function).
pub open spec fn predicate_is_equal_effect(t0: &Thread, t1: &Thread, r: Result<(), Error>) -> bool {
    &&& make_lambda_effect(t0, t1, r, 1, "test"@, test_view(), "java/util/Objects"@, "equals"@, test_view(), "java/util/function/Predicate"@)
}

/// What `predicate_both` does to a thread (see that function).
pub open spec fn predicate_both_effect(t0: &Thread, t1: &Thread, r: Result<(), Error>, is_and: bool) -> bool {
    &&& ({
        let l = t0.stackframe@.locals;
        let st = t0.stackframe@.stack;
        let pc = t0.pc_register;
        if l.len() < 3 {
            r == Err::<(), Error>(Error::Misc(Fault::LocalOutOfRange)) && *t1 == *t0
        } else if pc == 0 {
            call_with_effect(t0, t1, r, l[0], "test"@, test_view(), 1, l[2])
        } else if pc > 2 {
            r == Err::<(), Error>(Error::Misc(Fault::PcOutOfRange)) && *t1 == *t0
        } else if st.len() == 0 {
            r == Err::<(), Error>(Error::Misc(Fault::StackUnderflow)) && *t1 == *t0
        } else if pc == 1 && ((is_and && st.last() == 0) || (!is_and && st.last() == 1)) {
            exists|tp: Thread|
                #[trigger] popped_one(t0, &tp) && word_returned(&tp, tp.heap@, t1, st.last(), r)
        } else if pc == 1 {
            exists|tp: Thread|
                #[trigger] popped_one(t0, &tp) && call_with_effect(
                    &tp,
                    t1,
                    r,
                    l[1],
                    "test"@,
                    test_view(),
                    2,
                    l[2],
                )
        } else {
            exists|tp: Thread|
                #[trigger] popped_one(t0, &tp) && word_returned(&tp, tp.heap@, t1, st.last(), r)
        }
    })
}

/// What `predicate_combine` does to a thread (see that function).
pub open spec fn predicate_combine_effect(t0: &Thread, t1: &Thread, r: Result<(), Error>, is_and: bool) -> bool {
    &&& make_lambda_effect(
        t0,
        t1,
        r,
        2,
        "test"@,
        test_view(),
        "java/util/function/Predicate"@,
        if is_and {
            "$and"@
        } else {
            "$or"@
        },
        both_view(),
        "java/util/function/Predicate"@,
    )
}

/// What `optional_clinit` does to a thread (see that function).
pub open spec fn optional_clinit_effect(t0: &Thread, t1: &Thread, r: Result<(), Error>) -> bool {
    &&& ({
        let (made, h) = optional_made(t0, NONE);
        match made {
            Err(e) => (r matches Err(er) && er@ == e) && t1.heap@ == h && t1.stack
                == t0.stack && t1.stackframe == t0.stackframe
                && t1.pc_register == t0.pc_register && t1.class_area
                == t0.class_area && t1.method_area == t0.method_area,
            Ok(p) => static_made_effect(t0, t1, r, h, p, "java/util/Optional"@),
        }
    })
}

/// What `optional_empty` does to a thread (see that function).
pub open spec fn optional_empty_effect(t0: &Thread, t1: &Thread, r: Result<(), Error>) -> bool {
    &&& first_static_effect(t0, t1, r, "java/util/Optional"@)
}

/// What `optional_of` does to a thread (see that function).
pub open spec fn optional_of_effect(t0: &Thread, t1: &Thread, r: Result<(), Error>) -> bool {
    &&& t0.stackframe@.locals.len() == 0 ==> r == Err::<(), Error>(Error::Misc(Fault::LocalOutOfRange))
        && *t1 == *t0
    &&& t0.stackframe@.locals.len() > 0 ==> optional_returned(
        t0,
        t1,
        r,
        t0.stackframe@.locals[0],
    )
}

/// What `optional_of_nullable` does to a thread (see that function).
pub open spec fn optional_of_nullable_effect(t0: &Thread, t1: &Thread, r: Result<(), Error>) -> bool {
    &&& t0.stackframe@.locals.len() == 0 ==> r == Err::<(), Error>(Error::Misc(Fault::LocalOutOfRange))
        && *t1 == *t0
    &&& t0.stackframe@.locals.len() > 0 && t0.stackframe@.locals[0] != NULL ==> optional_returned(
        t0,
        t1,
        r,
        t0.stackframe@.locals[0],
    )
    &&& t0.stackframe@.locals.len() > 0 && t0.stackframe@.locals[0] == NULL ==> first_static_effect(
        t0,
        t1,
        r,
        "java/util/Optional"@,
    )
}

/// What `optional_equals` does to a thread (see that function).
pub open spec fn optional_equals_effect(t0: &Thread, t1: &Thread, r: Result<(), Error>) -> bool {
    &&& ({
        let l = t0.stackframe@.locals;
        let st = t0.stackframe@.stack;
        let h = t0.heap@;
        if l.len() < 2 {
            r == Err::<(), Error>(Error::Misc(Fault::LocalOutOfRange)) && *t1 == *t0
        } else if t0.pc_register != 0 {
            if st.len() == 0 {
                r == Err::<(), Error>(Error::Misc(Fault::StackUnderflow)) && *t1 == *t0
            } else {
                exists|tp: Thread|
                    #[trigger] popped_one(t0, &tp) && word_returned(&tp, tp.heap@, t1, st.last(), r)
            }
        } else {
            match object_at(h, l[1] as int) {
                None => r == Err::<(), Error>(Error::Misc(Fault::NullPointer)) && *t1 == *t0,
                Some(o) => if o.class != "java/util/Optional"@ {
                    word_returned(t0, h, t1, 0, r)
                } else {
                    match (optional_value(h, l[1]), optional_value(h, l[0])) {
                        (Err(f), _) => r == Err::<(), Error>(Error::Misc(f)) && *t1 == *t0,
                        (_, Err(f)) => r == Err::<(), Error>(Error::Misc(f)) && *t1 == *t0,
                        (Ok(None), Ok(None)) => word_returned(t0, h, t1, 1, r),
                        (Ok(Some(b)), Ok(Some(a))) => call_with_effect(
                            t0,
                            t1,
                            r,
                            a,
                            "equals"@,
                            test_view(),
                            1,
                            b,
                        ),
                        _ => word_returned(t0, h, t1, 0, r),
                    }
                },
            }
        }
    })
}

/// What `optional_filter` does to a thread (see that function).
pub open spec fn optional_filter_effect(t0: &Thread, t1: &Thread, r: Result<(), Error>) -> bool {
    &&& ({
        let l = t0.stackframe@.locals;
        let st = t0.stackframe@.stack;
        let h = t0.heap@;
        if l.len() < 2 {
            r == Err::<(), Error>(Error::Misc(Fault::LocalOutOfRange)) && *t1 == *t0
        } else if t0.pc_register == 0 {
            match optional_value(h, l[0]) {
                Err(f) => r == Err::<(), Error>(Error::Misc(f)) && *t1 == *t0,
                Ok(None) => first_static_effect(t0, t1, r, "java/util/Optional"@),
                Ok(Some(v)) => call_with_effect(t0, t1, r, l[1], "test"@, test_view(), 1, v),
            }
        } else if st.len() == 0 {
            r == Err::<(), Error>(Error::Misc(Fault::StackUnderflow)) && *t1 == *t0
        } else if st.last() == 0 {
            first_static_effect(t0, t1, r, "java/util/Optional"@)
        } else {
            word_returned(t0, h, t1, l[0], r)
        }
    })
}

/// What `optional_hash_code` does to a thread (see that function).
pub open spec fn optional_hash_code_effect(t0: &Thread, t1: &Thread, r: Result<(), Error>) -> bool {
    &&& ({
        let l = t0.stackframe@.locals;
        let st = t0.stackframe@.stack;
        let h = t0.heap@;
        if l.len() == 0 {
            r == Err::<(), Error>(Error::Misc(Fault::LocalOutOfRange)) && *t1 == *t0
        } else if t0.pc_register == 0 {
            match optional_value(h, l[0]) {
                Err(f) => r == Err::<(), Error>(Error::Misc(f)) && *t1 == *t0,
                Ok(None) => word_returned(t0, h, t1, 0, r),
                Ok(Some(v)) => call_on_effect(t0, t1, r, v, "hashCode"@, hash_code_view(), 1),
            }
        } else if st.len() == 0 {
            r == Err::<(), Error>(Error::Misc(Fault::StackUnderflow)) && *t1 == *t0
        } else {
            exists|tp: Thread|
                #[trigger] popped_one(t0, &tp) && word_returned(&tp, tp.heap@, t1, st.last(), r)
        }
    })
}

/// What `optional_check` does to a thread (see that function).
pub open spec fn optional_check_effect(t0: &Thread, t1: &Thread, r: Result<(), Error>, empty: bool) -> bool {
    &&& t0.stackframe@.locals.len() == 0 ==> r == Err::<(), Error>(Error::Misc(Fault::LocalOutOfRange))
    &&& t0.stackframe@.locals.len() > 0 ==> match optional_value(
        t0.heap@,
        t0.stackframe@.locals[0],
    ) {
        Err(f) => r == Err::<(), Error>(Error::Misc(f)),
        Ok(v) => word_returned(
            t0,
            t0.heap@,
            t1,
            if (v is None) == empty {
                1u32
            } else {
                0u32
            },
            r,
        ),
    }
}

/// What `optional_to_string` does to a thread (see that function).
pub open spec fn optional_to_string_effect(t0: &Thread, t1: &Thread, r: Result<(), Error>) -> bool {
    &&& ({
        let l = t0.stackframe@.locals;
        let st = t0.stackframe@.stack;
        let h = t0.heap@;
        if l.len() == 0 {
            r == Err::<(), Error>(Error::Misc(Fault::LocalOutOfRange)) && *t1 == *t0
        } else if t0.pc_register == 0 {
            match optional_value(h, l[0]) {
                Err(f) => r == Err::<(), Error>(Error::Misc(f)) && *t1 == *t0,
                Ok(None) => {
                    let (h2, p) = spec_allocate_str(h, "None"@);
                    word_returned(t0, h2, t1, p, r)
                },
                Ok(Some(v)) => call_on_effect(
                    t0,
                    t1,
                    r,
                    v,
                    "toString"@,
                    crate::native::string::to_string_view(),
                    1,
                ),
            }
        } else if st.len() == 0 {
            r == Err::<(), Error>(Error::Misc(Fault::StackUnderflow)) && *t1 == *t0
        } else {
            exists|tp: Thread|
                #[trigger] popped_one(t0, &tp) && match crate::dynamic::string_at(h, st.last()) {
                    Err(f) => r == Err::<(), Error>(Error::Misc(f)) && *t1 == tp,
                    Ok(t) => {
                        let (h2, p) = spec_allocate_str(h, "Some("@ + t + seq![')']);
                        word_returned(&tp, h2, t1, p, r)
                    },
                }
        }
    })
}

} // verus!
