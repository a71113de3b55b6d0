//! A thread of the machine: the frames of the methods it is running, and
//! the step that runs one instruction.
use vstd::prelude::*;

use std::sync::Arc;

use crate::class::{Class, ClassView, FieldType, FieldTypeView, Method, MethodDescriptor, MethodDescriptorView, MethodView};
use crate::raw_class::FieldView;
use crate::data::{find_key, lemma_find_key};
use crate::text::chars_eq;
use crate::data::{class_position, lookup_entry, MethodArea, SharedClassArea};
use crate::error::{Error, ErrorView, Fault};
use crate::frame::{StackFrame, StackFrameView};
use crate::heap::{holds_references, longs_of, object_at, slot_of, spec_allocate_str, spec_inc_ref, with_object, words_of, Heap, HeapView};
use crate::object::{is_array1, is_array2, Array1, Array2, NativeField, NativeFieldView, Object, LambdaOverrideView, LAMBDA_NATIVE};
use crate::data::MethodKey;
use crate::raw_class::{object_class_name, object_name};
use crate::code::{CodeView, ExceptionTableEntryView};
use crate::object::ObjectView;
use crate::frame::{drop_n, execute_local, spec_local, word, LocalEffect, LocalStep};
use crate::instruction::{Instruction, InstructionView};
use crate::stacking::join_words;
use crate::instruction::{hi_word, lo_word};

verus! {

/// A thread: the program counter, the frames of the callers, the frame of
/// the running method, and the machine's methods, classes and heap.
pub struct Thread {
    pub pc_register: usize,
    /// the frames of the callers, the innermost last
    pub stack: Vec<StackFrame>,
    /// the frame of the running method
    pub stackframe: StackFrame,
    pub method_area: MethodArea,
    pub class_area: SharedClassArea,
    pub heap: Heap,
}

/// The views of a list of frames.
pub open spec fn frames_view(s: Seq<StackFrame>) -> Seq<StackFrameView> {
    s.map_values(|f: StackFrame| f@)
}

/// The frame of a method just called: one more zero local than the method
/// asks for, and an empty operand stack.
pub open spec fn fresh_frame(method: MethodView, class: ClassView) -> StackFrameView {
    StackFrameView {
        locals: Seq::new(method.max_locals as nat + 1, |i: int| 0u32),
        stack: seq![],
        method,
        class,
    }
}

impl Thread {
    /// Whether the parts of the machine are well formed.
    pub open spec fn wf(&self) -> bool {
        self.heap.wf() && self.class_area.wf()
    }

    /// Starts running `method` of `class`: the running frame becomes a
    /// caller's, and the method runs from its first instruction.
    pub fn invoke_method(&mut self, method: Arc<Method>, class: Arc<Class>)
        ensures
            frames_view(final(self).stack@) == frames_view(old(self).stack@).push(old(self).stackframe@),
            final(self).stackframe@ == fresh_frame(method@, class@),
            final(self).pc_register == 0,
            final(self).heap@ == old(self).heap@,
            final(self).heap.wf() == old(self).heap.wf(),
            final(self).class_area@ == old(self).class_area@,
            final(self).class_area.wf() == old(self).class_area.wf(),
            final(self).method_area@ == old(self).method_area@,
    {
        let mut frame = StackFrame::from_method(method, class);
        assert(frame@.stack =~= Seq::<u32>::empty());
        std::mem::swap(&mut self.stackframe, &mut frame);
        self.stack.push(frame);
        self.pc_register = 0;
        assert(frames_view(self.stack@) =~= frames_view(old(self).stack@).push(old(self).stackframe@));
    }

    /// Returns from a method without a value: the innermost caller's frame
    /// runs again, from the return address on top of its operand stack.
    /// With no caller the thread is done (`ThreadKill`); a caller without a
    /// return address is a fault. On an error nothing changes.
    pub fn return_void(&mut self) -> (r: Result<(), Error>)
        ensures
            return_void_effect(*old(self), *final(self), r),
    {
        let n = self.stack.len();
        if n == 0 {
            return Err(Error::ThreadKill);
        }
        if self.stack[n - 1].operand_stack.len() == 0 {
            return Err(Error::Misc(Fault::StackUnderflow));
        }
        let mut caller = self.stack.pop().unwrap();
        let addr = caller.operand_stack.pop().unwrap();
        self.stackframe = caller;
        self.pc_register = addr as usize;
        assert(frames_view(self.stack@) =~= frames_view(old(self).stack@.drop_last()));
        Ok(())
    }
}

/// Whether two threads are the same in every part that is seen.
pub open spec fn same_thread(a: &Thread, b: &Thread) -> bool {
    &&& a.pc_register == b.pc_register
    &&& frames_view(a.stack@) == frames_view(b.stack@)
    &&& a.stackframe@ == b.stackframe@
    &&& a.heap@ == b.heap@
    &&& a.class_area@ == b.class_area@
    &&& a.method_area@ == b.method_area@
}

/// A frame with the operand stack `st`.
pub open spec fn with_stack(f: StackFrameView, st: Seq<u32>) -> StackFrameView {
    StackFrameView { stack: st, ..f }
}

/// The descriptor `()V` of class initializers.
pub open spec fn clinit_descriptor() -> crate::class::MethodDescriptorView {
    crate::class::MethodDescriptorView { parameter_size: 0, parameters: seq![], return_type: None }
}

/// The name `<clinit>` of class initializers.
pub open spec fn clinit_name() -> Seq<char> {
    seq!['<', 'c', 'l', 'i', 'n', 'i', 't', '>']
}

impl Thread {
    /// Returns one word from a method: the word on top of the returning
    /// frame goes on top of the caller's stack, the caller runs again from
    /// the return address under it, and a reference returned is counted once
    /// more. Faults (nothing changes): no caller, a method declared `void`,
    /// an empty stack on either side, or a reference that cannot be counted.
    pub fn return_one(&mut self) -> (r: Result<(), Fault>)
        requires
            old(self).heap.wf(),
        ensures
            final(self).heap.wf(),
            final(self).class_area.wf() == old(self).class_area.wf(),
            return_one_effect(*old(self), *final(self), r),
    {
        let n = self.stack.len();
        if n == 0 {
            return Err(Fault::NoCaller);
        }
        let is_reference = match &self.stackframe.method.descriptor.return_type {
            Some(t) => t.is_reference(),
            None => {
                return Err(Fault::Unsupported);
            },
        };
        if self.stackframe.operand_stack.len() == 0 || self.stack[n - 1].operand_stack.len() == 0 {
            return Err(Fault::StackUnderflow);
        }
        let v = self.stackframe.operand_stack[self.stackframe.operand_stack.len() - 1];
        if is_reference {
            self.heap.inc_ref(v)?;
        }
        let mut caller = self.stack.pop().unwrap();
        let addr = caller.operand_stack.pop().unwrap();
        caller.operand_stack.push(v);
        self.stackframe = caller;
        self.pc_register = addr as usize;
        assert(frames_view(self.stack@) =~= frames_view(old(self).stack@.drop_last()));
        Ok(())
    }

    /// Returns two words from a method: they go on top of the caller's
    /// stack, in their order, and the caller runs again from the return
    /// address under them. Faults (nothing changes): no caller, fewer than
    /// two words to return, no return address.
    pub fn return_two(&mut self) -> (r: Result<(), Fault>)
        ensures
            return_two_effect(*old(self), *final(self), r),
    {
        let n = self.stack.len();
        if n == 0 {
            return Err(Fault::NoCaller);
        }
        let m = self.stackframe.operand_stack.len();
        if m < 2 || self.stack[n - 1].operand_stack.len() == 0 {
            return Err(Fault::StackUnderflow);
        }
        let upper = self.stackframe.operand_stack[m - 2];
        let lower = self.stackframe.operand_stack[m - 1];
        let mut caller = self.stack.pop().unwrap();
        let addr = caller.operand_stack.pop().unwrap();
        caller.operand_stack.push(upper);
        caller.operand_stack.push(lower);
        self.stackframe = caller;
        self.pc_register = addr as usize;
        assert(frames_view(self.stack@) =~= frames_view(old(self).stack@.drop_last()));
        Ok(())
    }

    /// Starts the initializer of the class at position `ci` the first time
    /// it is asked for: marks the class initialized, and, when the class has
    /// a `<clinit>()V` method, pushes the address of the instruction that
    /// asked (so that it runs again afterwards) and calls the initializer.
    /// Gives whether it was called.
    pub fn maybe_initialize_class(&mut self, ci: usize) -> (r: bool)
        requires
            old(self).class_area.wf(),
            ci < old(self).class_area@.classes.len(),
            old(self).pc_register > 0,
        ensures
            final(self).class_area.wf(),
            final(self).heap.wf() == old(self).heap.wf(),
            initialize_effect(*old(self), *final(self), r, ci),
    {
        proof {
            self.class_area.lemma_wf();
        }
        if self.class_area.is_initialized(ci) {
            return false;
        }
        self.class_area.set_initialized(ci);
        let class = self.class_area.class_at(ci);
        let name = vec!['<', 'c', 'l', 'i', 'n', 'i', 't', '>'];
        assert(name@ =~= clinit_name());
        let descriptor = MethodDescriptor { parameter_size: 0, parameters: Vec::new(), return_type: None };
        assert(crate::class::field_types_view(descriptor.parameters@) =~= Seq::<crate::class::FieldTypeView>::empty());
        assert(descriptor@ == clinit_descriptor());
        assert(class@.this == old(self).class_area@.classes[ci as int].this);
        assert(self.method_area@ == old(self).method_area@);
        match self.method_area.search(class.this.as_slice(), name.as_slice(), &descriptor) {
            None => {
                assert(lookup_entry(old(self).method_area@, (old(self).class_area@.classes[ci as int].this, clinit_name(), clinit_descriptor())) is None);
                false
            },
            Some((c, m)) => {
                #[verifier::truncate]
                let back = (self.pc_register - 1) as u32;
                let ghost mid_stack = frames_view(self.stack@);
                self.stackframe.operand_stack.push(back);
                let ghost pre = self.stackframe@;
                assert(pre == with_stack(old(self).stackframe@, old(self).stackframe@.stack.push((old(self).pc_register - 1) as u32)));
                self.invoke_method(m, c);
                assert(frames_view(self.stack@) == mid_stack.push(pre));
                assert(mid_stack == frames_view(old(self).stack@));
                assert(self.stackframe@ == fresh_frame(m@, c@));
                true
            },
        }
    }
}

/// The position of the first static field named `name` among a class's
/// statics, or -1.
pub open spec fn static_index(c: ClassView, name: Seq<char>) -> int {
    find_key(c.statics.map_values(|f: (FieldView, usize)| f.0.name), name)
}

/// Finds the first static field named `name` of `class`; gives where its
/// words start.
fn find_static(class: &Class, name: &[char]) -> (r: Option<usize>)
    ensures
        static_index(class@, name@) >= 0 ==> r == Some(class@.statics[static_index(class@, name@)].1),
        static_index(class@, name@) < 0 ==> r is None,
{
    let ghost keys = class@.statics.map_values(|f: (FieldView, usize)| f.0.name);
    proof {
        lemma_find_key(keys, name@);
    }
    let mut i: usize = 0;
    while i < class.statics.len()
        invariant
            keys == class@.statics.map_values(|f: (FieldView, usize)| f.0.name),
            keys.len() == class.statics@.len(),
            i <= class.statics@.len(),
            forall|j: int| 0 <= j < i ==> keys[j] != name@,
            -1 <= find_key(keys, name@) < keys.len(),
            find_key(keys, name@) >= 0 ==> keys[find_key(keys, name@)] == name@ && forall|j: int|
                0 <= j < find_key(keys, name@) ==> keys[j] != name@,
            find_key(keys, name@) == -1 ==> forall|j: int| 0 <= j < keys.len() ==> keys[j] != name@,
        decreases class.statics@.len() - i,
    {
        assert(keys[i as int] == class.statics@[i as int].0.name@);
        if chars_eq(class.statics[i].0.name.as_slice(), name) {
            assert(class@.statics[i as int].1 == class.statics@[i as int].1);
            return Some(class.statics[i].1);
        }
        i = i + 1;
    }
    None
}

impl Thread {
    /// `getstatic` on the class at position `ci` (already initialized):
    /// pushes the words of its static field `name`, counting a reference once
    /// more. Faults (nothing changes): no static of that name, words past the
    /// class's static data, a reference that cannot be counted.
    pub fn get_static_at(&mut self, ci: usize, name: &Vec<char>, ty: &FieldType) -> (r: Result<(), Fault>)
        requires
            old(self).wf(),
            ci < old(self).class_area@.classes.len(),
        ensures
            final(self).wf(),
            get_static_effect(*old(self), *final(self), r, ci, name@, ty@),
    {
        proof {
            self.class_area.lemma_wf();
        }
        let class = self.class_area.class_at(ci);
        let p = match find_static(&class, name.as_slice()) {
            Some(p) => p,
            None => {
                return Err(Fault::StaticNotFound);
            },
        };
        if ty.get_size() == 1 {
            let v = self.class_area.static_word(ci, p)?;
            if ty.is_reference() {
                self.heap.inc_ref(v)?;
            }
            self.stackframe.operand_stack.push(v);
            Ok(())
        } else {
            let upper = self.class_area.static_word(ci, p)?;
            let lower = self.class_area.static_word(ci, p + 1)?;
            self.stackframe.operand_stack.push(upper);
            self.stackframe.operand_stack.push(lower);
            Ok(())
        }
    }
}

impl Thread {
    /// `putstatic` on the class at position `ci` (already initialized):
    /// pops the value's words into its static field `name`. For a reference,
    /// the replaced reference loses a count and the new one gains one.
    /// Faults before any change: no static of that name, too few words on
    /// the stack, words past the class's static data.
    pub fn put_static_at(&mut self, ci: usize, name: &Vec<char>, ty: &FieldType) -> (r: Result<(), Error>)
        requires
            old(self).wf(),
            ci < old(self).class_area@.classes.len(),
        ensures
            final(self).wf(),
            put_static_effect(*old(self), *final(self), r, ci, name@, ty@),
    {
        proof {
            self.class_area.lemma_wf();
        }
        let class = self.class_area.class_at(ci);
        let p = match find_static(&class, name.as_slice()) {
            Some(p) => p,
            None => {
                return Err(Error::Misc(Fault::StaticNotFound));
            },
        };
        let m = self.stackframe.operand_stack.len();
        if ty.get_size() == 1 {
            if m < 1 {
                return Err(Error::Misc(Fault::StackUnderflow));
            }
            let previous = match self.class_area.static_word(ci, p) {
                Ok(w) => w,
                Err(f) => {
                    return Err(Error::Misc(f));
                },
            };
            let v = self.stackframe.operand_stack[m - 1];
            if ty.is_reference() {
                match self.heap.dec_ref(previous, &self.class_area) {
                    Ok(()) => {},
                    Err(e) => {
                        return Err(e);
                    },
                }
                match self.heap.inc_ref(v) {
                    Ok(()) => {},
                    Err(f) => {
                        return Err(Error::Misc(f));
                    },
                }
            }
            let _ = self.class_area.set_static_word(ci, p, v);
            self.stackframe.operand_stack.pop();
            proof {
                let s0 = old(self).class_area@.states;
                assert(self.class_area@.states =~= s0.update(
                    ci as int,
                    crate::data::ClassStateView {
                        static_data: s0[ci as int].static_data.update(p as int, v),
                        ..s0[ci as int]
                    },
                ));
            }
            Ok(())
        } else {
            if m < 2 {
                return Err(Error::Misc(Fault::StackUnderflow));
            }
            match self.class_area.static_word(ci, p) {
                Ok(_) => {},
                Err(f) => {
                    return Err(Error::Misc(f));
                },
            }
            match self.class_area.static_word(ci, p + 1) {
                Ok(_) => {},
                Err(f) => {
                    return Err(Error::Misc(f));
                },
            }
            let lower = self.stackframe.operand_stack[m - 1];
            let upper = self.stackframe.operand_stack[m - 2];
            let _ = self.class_area.set_static_word(ci, p, upper);
            let _ = self.class_area.set_static_word(ci, p + 1, lower);
            self.stackframe.operand_stack.pop();
            self.stackframe.operand_stack.pop();
            proof {
                assert(self.stackframe@.stack =~= drop_n(old(self).stackframe@.stack, 2));
                let s0 = old(self).class_area@.states;
                assert(self.class_area@.states =~= s0.update(
                    ci as int,
                    crate::data::ClassStateView {
                        static_data: s0[ci as int].static_data.update(p as int, upper).update(p + 1, lower),
                        ..s0[ci as int]
                    },
                ));
            }
            Ok(())
        }
    }

    /// `getfield` with the field at word `idx` of type `ty`: replaces the
    /// object reference on top of the stack by the field's words, counting a
    /// reference once more. Faults (nothing changes): an empty stack, a
    /// reference to no live object, words past the object's fields, a
    /// reference that cannot be counted.
    pub fn get_field_at(&mut self, idx: usize, ty: &FieldType) -> (r: Result<(), Fault>)
        requires
            old(self).wf(),
        ensures
            final(self).wf(),
            get_field_effect(*old(self), *final(self), r, idx, ty@),
    {
        let m = self.stackframe.operand_stack.len();
        if m < 1 {
            return Err(Fault::StackUnderflow);
        }
        let obj = self.stackframe.operand_stack[m - 1];
        if ty.get_size() == 1 {
            let v = self.heap.get_field(obj, idx)?;
            if ty.is_reference() {
                self.heap.inc_ref(v)?;
            }
            self.stackframe.operand_stack.pop();
            self.stackframe.operand_stack.push(v);
            Ok(())
        } else {
            let upper = self.heap.get_field(obj, idx)?;
            let lower = self.heap.get_field(obj, idx + 1)?;
            self.stackframe.operand_stack.pop();
            self.stackframe.operand_stack.push(upper);
            self.stackframe.operand_stack.push(lower);
            Ok(())
        }
    }
}

impl Thread {
    /// `putfield` with the field at word `idx` of type `ty`: pops the
    /// value's words and the object reference under them, and stores the
    /// value into the object's field words. For a reference, the replaced
    /// reference loses a count and the new one gains one. Faults before any
    /// change: too few words on the stack, a reference to no live object,
    /// words past the object's fields.
    pub fn put_field_at(&mut self, idx: usize, ty: &FieldType) -> (r: Result<(), Error>)
        requires
            old(self).wf(),
        ensures
            final(self).wf(),
            put_field_effect(*old(self), *final(self), r, idx, ty@),
    {
        let m = self.stackframe.operand_stack.len();
        let n = ty.get_size();
        if m < n + 1 {
            return Err(Error::Misc(Fault::StackUnderflow));
        }
        let obj = self.stackframe.operand_stack[m - 1 - n];
        let lower = self.stackframe.operand_stack[m - 1];
        if n == 1 {
            let previous = match self.heap.get_field(obj, idx) {
                Ok(w) => w,
                Err(f) => {
                    return Err(Error::Misc(f));
                },
            };
            let _ = self.heap.set_field(obj, idx, lower);
            if ty.is_reference() {
                match self.heap.dec_ref(previous, &self.class_area) {
                    Ok(()) => {},
                    Err(e) => {
                        return Err(e);
                    },
                }
                match self.heap.inc_ref(lower) {
                    Ok(()) => {},
                    Err(f) => {
                        return Err(Error::Misc(f));
                    },
                }
            }
            self.stackframe.operand_stack.pop();
            self.stackframe.operand_stack.pop();
        } else {
            let upper = self.stackframe.operand_stack[m - 2];
            match self.heap.get_field(obj, idx) {
                Ok(_) => {},
                Err(f) => {
                    return Err(Error::Misc(f));
                },
            }
            match self.heap.get_field(obj, idx + 1) {
                Ok(_) => {},
                Err(f) => {
                    return Err(Error::Misc(f));
                },
            }
            let ghost h0 = self.heap@;
            let ghost i = slot_of(h0, obj as int);
            let ghost o = object_at(h0, obj as int)->Some_0;
            let _ = self.heap.set_field(obj, idx, upper);
            let ghost h1 = self.heap@;
            assert(slot_of(h1, obj as int) == i);
            assert(object_at(h1, obj as int) == Some(ObjectView { fields: o.fields.update(idx as int, upper), ..o }));
            let _ = self.heap.set_field(obj, idx + 1, lower);
            proof {
                let o2 = ObjectView { fields: o.fields.update(idx as int, upper).update(idx + 1, lower), ..o };
                assert(self.heap@.contents =~= h0.contents.update(i, Some(o2)));
            }
            self.stackframe.operand_stack.pop();
            self.stackframe.operand_stack.pop();
            self.stackframe.operand_stack.pop();
        }
        proof {
            assert(self.stackframe@.stack =~= drop_n(old(self).stackframe@.stack, n as int + 1));
        }
        Ok(())
    }

    /// Puts `obj` on the heap, pushes its reference and counts it once.
    fn push_new(&mut self, obj: Object) -> (r: Result<(), Fault>)
        requires
            old(self).wf(),
        ensures
            final(self).wf(),
            ({
                let ptr = ((old(self).heap@.contents.len() + crate::data::HEAP_START) % 0x1_0000_0000) as u32;
                let h = HeapView {
                    contents: old(self).heap@.contents.push(Some(obj@)),
                    refcounts: old(self).heap@.refcounts.push(0),
                    strings: old(self).heap@.strings,
                    class_objects: old(self).heap@.class_objects,
                };
                &&& final(self).stackframe@ == with_stack(old(self).stackframe@, old(self).stackframe@.stack.push(ptr))
                &&& final(self).pc_register == old(self).pc_register
                &&& frames_view(final(self).stack@) == frames_view(old(self).stack@)
                &&& final(self).class_area@ == old(self).class_area@
                &&& final(self).method_area@ == old(self).method_area@
                &&& match spec_inc_ref(h, ptr) {
                    Ok(h2) => r is Ok && final(self).heap@ == h2,
                    Err(f) => r == Err::<(), Fault>(f) && final(self).heap@ == h,
                }
            }),
    {
        let ptr = self.heap.allocate(obj);
        self.stackframe.operand_stack.push(ptr);
        self.heap.inc_ref(ptr)
    }

    /// `new` for the class at position `ci` (already initialized): a new
    /// instance with the class's initial field words, its reference pushed
    /// and counted once (see `push_new`).
    pub fn new_object_at(&mut self, ci: usize) -> (r: Result<(), Fault>)
        requires
            old(self).wf(),
            ci < old(self).class_area@.classes.len(),
        ensures
            final(self).wf(),
            new_object_effect(*old(self), *final(self), r, ci),
    {
        let class = self.class_area.class_at(ci);
        let obj = Object::from_class(&class);
        self.push_new(obj)
    }

    /// `newarray`: pops a count and pushes a new array of that many zero
    /// elements of type `ty` (two-word elements when `two`), counted once.
    /// Fault (nothing changes): an empty stack.
    pub fn new_array(&mut self, ty: FieldType, two: bool) -> (r: Result<(), Fault>)
        requires
            old(self).wf(),
        ensures
            final(self).wf(),
            new_array_effect(*old(self), *final(self), r, ty@, two),
    {
        let count = match self.stackframe.operand_stack.pop() {
            Some(c) => c,
            None => {
                return Err(Fault::StackUnderflow);
            },
        };
        let obj = if two {
            Array2::new(count as usize, ty)
        } else {
            Array1::new(count as usize, ty)
        };
        let r = self.push_new(obj);
        proof {
            assert(obj@.fields =~= Seq::<u32>::empty());
        }
        r
    }
}

impl Thread {
    /// `arraylength`: replaces the array reference on top of the stack by the
    /// number of elements of the one-word array it names (cut to 32 bits).
    /// Faults (nothing changes): an empty stack, a reference to no live
    /// object, an object that is no one-word array.
    pub fn array_length(&mut self) -> (r: Result<(), Fault>)
        requires
            old(self).wf(),
        ensures
            final(self).wf(),
            array_length_effect(*old(self), *final(self), r),
    {
        let m = self.stackframe.operand_stack.len();
        if m < 1 {
            return Err(Fault::StackUnderflow);
        }
        let ptr = self.stackframe.operand_stack[m - 1];
        let n = self.heap.array_length(ptr)?;
        self.stackframe.operand_stack.pop();
        #[verifier::truncate]
        let len = n as u32;
        self.stackframe.operand_stack.push(len);
        assert(self.stackframe@.stack =~= drop_n(old(self).stackframe@.stack, 1).push(len));
        Ok(())
    }

    /// `<t>aload`: pops an index and an array reference, and pushes the
    /// element's words (two-word arrays when `two`); a reference element is
    /// counted once more. Faults (nothing changes): too few words on the
    /// stack, no live object, the wrong kind of array, an index past the end,
    /// a reference that cannot be counted.
    pub fn array_load(&mut self, two: bool) -> (r: Result<(), Fault>)
        requires
            old(self).wf(),
        ensures
            final(self).wf(),
            array_load_effect(*old(self), *final(self), r, two),
    {
        let m = self.stackframe.operand_stack.len();
        if m < 2 {
            return Err(Fault::StackUnderflow);
        }
        let index = self.stackframe.operand_stack[m - 1];
        let ptr = self.stackframe.operand_stack[m - 2];
        if two {
            let v = self.heap.array2_load(ptr, index)?;
            self.stackframe.operand_stack.pop();
            self.stackframe.operand_stack.pop();
            self.stackframe.operand_stack.push((v / 0x1_0000_0000) as u32);
            self.stackframe.operand_stack.push((v % 0x1_0000_0000) as u32);
            assert(self.stackframe@.stack =~= drop_n(old(self).stackframe@.stack, 2).push(hi_word(v)).push(lo_word(v)));
        } else {
            let (v, is_ref) = self.heap.array1_load(ptr, index)?;
            if is_ref {
                self.heap.inc_ref(v)?;
            }
            self.stackframe.operand_stack.pop();
            self.stackframe.operand_stack.pop();
            self.stackframe.operand_stack.push(v);
            assert(self.stackframe@.stack =~= drop_n(old(self).stackframe@.stack, 2).push(v));
        }
        Ok(())
    }

    /// `<t>astore`: pops a value's words, an index and an array reference,
    /// and stores the value as the element (two-word arrays when `two`). For
    /// an array of references the new element gains a count and the replaced
    /// one loses one. Faults before any change: too few words on the stack,
    /// no live object, the wrong kind of array, an index past the end.
    pub fn array_store(&mut self, two: bool) -> (r: Result<(), Error>)
        requires
            old(self).wf(),
        ensures
            final(self).wf(),
            array_store_effect(*old(self), *final(self), r, two),
    {
        let m = self.stackframe.operand_stack.len();
        if two {
            if m < 4 {
                return Err(Error::Misc(Fault::StackUnderflow));
            }
            let lower = self.stackframe.operand_stack[m - 1];
            let upper = self.stackframe.operand_stack[m - 2];
            let index = self.stackframe.operand_stack[m - 3];
            let ptr = self.stackframe.operand_stack[m - 4];
            let v = upper as u64 * 0x1_0000_0000 + lower as u64;
            match self.heap.array2_store(ptr, index, v) {
                Ok(()) => {},
                Err(f) => {
                    return Err(Error::Misc(f));
                },
            }
            self.stackframe.operand_stack.pop();
            self.stackframe.operand_stack.pop();
            self.stackframe.operand_stack.pop();
            self.stackframe.operand_stack.pop();
            proof {
                assert(self.stackframe@.stack =~= drop_n(old(self).stackframe@.stack, 4));
            }
        } else {
            if m < 3 {
                return Err(Error::Misc(Fault::StackUnderflow));
            }
            let value = self.stackframe.operand_stack[m - 1];
            let index = self.stackframe.operand_stack[m - 2];
            let ptr = self.stackframe.operand_stack[m - 3];
            let (previous, is_ref) = match self.heap.array1_store(ptr, index, value) {
                Ok(x) => x,
                Err(f) => {
                    return Err(Error::Misc(f));
                },
            };
            if is_ref {
                match self.heap.inc_ref(value) {
                    Ok(()) => {},
                    Err(f) => {
                        return Err(Error::Misc(f));
                    },
                }
                match self.heap.dec_ref(previous, &self.class_area) {
                    Ok(()) => {},
                    Err(e) => {
                        return Err(e);
                    },
                }
            }
            self.stackframe.operand_stack.pop();
            self.stackframe.operand_stack.pop();
            self.stackframe.operand_stack.pop();
            proof {
                assert(self.stackframe@.stack =~= drop_n(old(self).stackframe@.stack, 3));
            }
        }
        Ok(())
    }
}

/// The frame of a method just called with the arguments `args` in its first
/// locals.
pub open spec fn called_frame(method: MethodView, class: ClassView, args: Seq<u32>) -> StackFrameView {
    let f = fresh_frame(method, class);
    StackFrameView { locals: args + f.locals.subrange(args.len() as int, f.locals.len() as int), ..f }
}

/// The name `<init>` of constructors.
pub open spec fn init_name() -> Seq<char> {
    seq!['<', 'i', 'n', 'i', 't', '>']
}

impl Thread {
    /// Calls `method` of `class` with the top `arg_words` words of the stack
    /// as its first locals: they leave the caller's stack, the return address
    /// (the program counter) is pushed in their place, and the method runs
    /// from its first instruction. Faults (nothing changes): fewer words than
    /// that on the stack, or more than the method has locals.
    pub fn invoke_with_args(&mut self, method: Arc<Method>, class: Arc<Class>, arg_words: usize) -> (r: Result<
        (),
        Fault,
    >)
        ensures
            final(self).heap.wf() == old(self).heap.wf(),
            final(self).class_area.wf() == old(self).class_area.wf(),
            call_effect(*old(self), *final(self), r, method@, class@, arg_words),
    {
        let m = self.stackframe.operand_stack.len();
        if arg_words > m {
            return Err(Fault::StackUnderflow);
        }
        if arg_words > method.max_locals as usize + 1 {
            return Err(Fault::LocalOutOfRange);
        }
        let start = m - arg_words;
        let mut args: Vec<u32> = Vec::new();
        let ghost st = self.stackframe@.stack;
        let ghost sf0 = self.stackframe@;
        while self.stackframe.operand_stack.len() > start
            invariant
                self.stackframe@ == (StackFrameView { stack: self.stackframe@.stack, ..sf0 }),
                sf0 == old(self).stackframe@,
                frames_view(self.stack@) == frames_view(old(self).stack@),
                self.pc_register == old(self).pc_register,
                self.heap@ == old(self).heap@,
                self.heap.wf() == old(self).heap.wf(),
                self.class_area@ == old(self).class_area@,
                self.class_area.wf() == old(self).class_area.wf(),
                self.method_area@ == old(self).method_area@,
                start <= self.stackframe.operand_stack@.len(),
                self.stackframe.operand_stack@ == st.subrange(0, self.stackframe.operand_stack@.len() as int),
                start + args@.len() + (self.stackframe.operand_stack@.len() - start) == st.len(),
                args@ == st.subrange(self.stackframe.operand_stack@.len() as int, st.len() as int).reverse(),
                st.len() == m,
            decreases self.stackframe.operand_stack@.len(),
        {
            let ghost before = self.stackframe.operand_stack@;
            let w = self.stackframe.operand_stack.pop().unwrap();
            args.push(w);
            proof {
                assert(self.stackframe.operand_stack@ =~= st.subrange(0, self.stackframe.operand_stack@.len() as int));
                assert(args@ =~= st.subrange(self.stackframe.operand_stack@.len() as int, st.len() as int).reverse());
            }
        }
        #[verifier::truncate]
        let back = self.pc_register as u32;
        self.stackframe.operand_stack.push(back);
        let ghost caller = self.stackframe@;
        assert(caller == with_stack(old(self).stackframe@, st.subrange(0, start as int).push(old(self).pc_register as u32)));
        self.invoke_method(method, class);
        let ghost fresh = self.stackframe@.locals;
        let ghost sf = self.stackframe@;
        let ghost fr = frames_view(self.stack@);
        let ghost hv = self.heap@;
        let ghost hw = self.heap.wf();
        let ghost cv = self.class_area@;
        let ghost cw = self.class_area.wf();
        let ghost mv = self.method_area@;
        let mut k: usize = 0;
        while k < arg_words
            invariant
                self.stackframe@ == (StackFrameView { locals: self.stackframe@.locals, ..sf }),
                frames_view(self.stack@) == fr,
                self.pc_register == 0,
                self.heap@ == hv,
                self.heap.wf() == hw,
                self.class_area@ == cv,
                self.class_area.wf() == cw,
                self.method_area@ == mv,
                k <= arg_words,
                arg_words == args@.len(),
                arg_words <= fresh.len(),
                self.stackframe@.locals.len() == fresh.len(),
                forall|j: int| 0 <= j < k ==> self.stackframe@.locals[j] == args@[arg_words - 1 - j],
                forall|j: int| k <= j < fresh.len() ==> self.stackframe@.locals[j] == fresh[j],
            decreases arg_words - k,
        {
            let v = args[arg_words - 1 - k];
            self.stackframe.locals.set(k, v);
            k = k + 1;
        }
        proof {
            let a = st.subrange(start as int, st.len() as int);
            assert(self.stackframe@.locals =~= a + fresh.subrange(a.len() as int, fresh.len() as int)) by {
                assert forall|j: int| 0 <= j < a.len() implies self.stackframe@.locals[j] == a[j] by {
                    assert(args@[arg_words - 1 - j] == a[j]);
                }
            }
        }
        Ok(())
    }
}

/// How the search for a method up from a class ends: found, or the chain of
/// classes passed up to `java/lang/Object` without finding it, or a
/// superclass that is not loaded, or more steps than there are classes.
pub enum Walk {
    Found(ClassView, MethodView),
    Chain(Seq<ClassView>),
    Missing(Seq<char>),
    Cycle,
}

/// Looks a method up in `c` and then its superclasses.
pub open spec fn spec_walk(
    ma: Seq<(MethodKey, (ClassView, MethodView))>,
    classes: Seq<ClassView>,
    c: ClassView,
    name: Seq<char>,
    desc: crate::class::MethodDescriptorView,
    fuel: nat,
) -> Walk
    decreases fuel,
{
    match lookup_entry(ma, (c.this, name, desc)) {
        Some((k, m)) => Walk::Found(k, m),
        None => if c.this == object_name() {
            Walk::Chain(seq![c])
        } else if fuel == 0 {
            Walk::Cycle
        } else {
            let p = class_position(classes, c.super_class);
            if p < 0 {
                Walk::Missing(c.super_class)
            } else {
                match spec_walk(ma, classes, classes[p], name, desc, (fuel - 1) as nat) {
                    Walk::Chain(cs) => Walk::Chain(seq![c] + cs),
                    other => other,
                }
            }
        },
    }
}

/// The first of the interfaces `ifaces` with a method of that name and
/// descriptor that is not abstract.
pub open spec fn first_in_interfaces(
    ma: Seq<(MethodKey, (ClassView, MethodView))>,
    ifaces: Seq<Seq<char>>,
    name: Seq<char>,
    desc: crate::class::MethodDescriptorView,
) -> Option<(ClassView, MethodView)>
    decreases ifaces.len(),
{
    if ifaces.len() == 0 {
        None
    } else {
        match lookup_entry(ma, (ifaces[0], name, desc)) {
            Some((c, m)) if !(m.code is Abstract) => Some((c, m)),
            _ => first_in_interfaces(ma, ifaces.drop_first(), name, desc),
        }
    }
}

/// The first method found through the interfaces of the classes of
/// `chain`, in order.
pub open spec fn first_in_chain(
    ma: Seq<(MethodKey, (ClassView, MethodView))>,
    chain: Seq<ClassView>,
    name: Seq<char>,
    desc: crate::class::MethodDescriptorView,
) -> Option<(ClassView, MethodView)>
    decreases chain.len(),
{
    if chain.len() == 0 {
        None
    } else {
        match first_in_interfaces(ma, chain[0].interfaces, name, desc) {
            Some(v) => Some(v),
            None => first_in_chain(ma, chain.drop_first(), name, desc),
        }
    }
}

/// The method that a lambda object's implemented method runs.
pub open spec fn lambda_method(l: LambdaOverrideView) -> MethodView {
    MethodView {
        max_locals: (l.method_descriptor.parameter_size as u16 + 1) as u16,
        access_flags: 0,
        name: l.method_name,
        exceptions: seq![],
        descriptor: l.method_descriptor,
        code: CodeView::Native(LAMBDA_NATIVE),
        signature: None,
        attributes: seq![],
    }
}

/// The method that calling `name` with descriptor `desc` on the object
/// `ptr` runs, with its class: a lambda object's own method; else the first
/// found up the object's class and its superclasses; else the first that
/// is not abstract among their interfaces.
pub open spec fn spec_resolve(
    heap: HeapView,
    classes: Seq<ClassView>,
    ma: Seq<(MethodKey, (ClassView, MethodView))>,
    ptr: u32,
    name: Seq<char>,
    desc: crate::class::MethodDescriptorView,
) -> Result<(ClassView, MethodView), ErrorView> {
    match object_at(heap, ptr as int) {
        None => Err(ErrorView::Misc(Fault::NullPointer)),
        Some(o) => {
            let p = class_position(classes, o.class);
            if p < 0 {
                Err(ErrorView::ClassResolution(o.class))
            } else if o.native_fields.len() > 0 && o.native_fields[0] is Lambda
                && o.native_fields[0]->Lambda_0.method_name == name
                && o.native_fields[0]->Lambda_0.method_descriptor == desc {
                let l = o.native_fields[0]->Lambda_0;
                if l.method_descriptor.parameter_size as u16 == u16::MAX {
                    Err(ErrorView::Misc(Fault::Overflow))
                } else {
                    Ok((classes[p], lambda_method(l)))
                }
            } else {
                match spec_walk(ma, classes, classes[p], name, desc, classes.len()) {
                    Walk::Found(c, m) => Ok((c, m)),
                    Walk::Missing(n) => Err(ErrorView::ClassResolution(n)),
                    Walk::Cycle => Err(ErrorView::Misc(Fault::CyclicHierarchy)),
                    Walk::Chain(cs) => match first_in_chain(ma, cs, name, desc) {
                        Some(v) => Ok(v),
                        None => Err(ErrorView::Misc(Fault::MethodNotFound)),
                    },
                }
            }
        },
    }
}

/// The views of a list of classes.
pub open spec fn classes_view(s: Seq<Arc<Class>>) -> Seq<ClassView> {
    s.map_values(|c: Arc<Class>| (*c)@)
}

/// A walk's chain of classes with `cs` in front.
pub open spec fn prepend(cs: Seq<ClassView>, w: Walk) -> Walk {
    match w {
        Walk::Chain(x) => Walk::Chain(cs + x),
        other => other,
    }
}

impl Thread {
    /// Looks a method up in `start` and its superclasses (see `spec_walk`):
    /// `Ok(Ok(..))` when found, `Ok(Err(chain))` with the classes passed when
    /// not.
    fn walk(&self, start: Arc<Class>, name: &[char], desc: &MethodDescriptor) -> (r: Result<
        Result<(Arc<Class>, Arc<Method>), Vec<Arc<Class>>>,
        Error,
    >)
        requires
            self.class_area.wf(),
        ensures
            match spec_walk(self.method_area@, self.class_area@.classes, start@, name@, desc@, self.class_area@.classes.len()) {
                Walk::Found(c, m) => r matches Ok(Ok((rc, rm))) && rc@ == c && rm@ == m,
                Walk::Chain(cs) => r matches Ok(Err(v)) && classes_view(v@) == cs,
                Walk::Missing(n) => r matches Err(e) && e@ == ErrorView::ClassResolution(n),
                Walk::Cycle => r matches Err(e) && e@ == ErrorView::Misc(Fault::CyclicHierarchy),
            },
    {
        let ghost ma = self.method_area@;
        let ghost classes = self.class_area@.classes;
        let ghost total = spec_walk(ma, classes, start@, name@, desc@, classes.len());
        let object = object_class_name();
        let mut current = start;
        let mut chain: Vec<Arc<Class>> = Vec::new();
        let mut fuel = self.class_area.len();
        assert(classes_view(chain@) =~= Seq::<ClassView>::empty());
        assert(Seq::<ClassView>::empty() + seq![current@] =~= seq![current@]);
        loop
            invariant
                ma == self.method_area@,
                classes == self.class_area@.classes,
                self.class_area.wf(),
                object@ == object_name(),
                total == prepend(classes_view(chain@), spec_walk(ma, classes, current@, name@, desc@, fuel as nat)),
                total == spec_walk(ma, classes, start@, name@, desc@, classes.len()),
            decreases fuel,
        {
            match self.method_area.search(current.this.as_slice(), name, desc) {
                Some(v) => {
                    return Ok(Ok(v));
                },
                None => {},
            }
            let ghost before = classes_view(chain@);
            chain.push(current.clone());
            assert(classes_view(chain@) =~= before.push(current@));
            if chars_eq(current.this.as_slice(), object.as_slice()) {
                assert(before + seq![current@] =~= before.push(current@));
                return Ok(Err(chain));
            }
            if fuel == 0 {
                return Err(Error::Misc(Fault::CyclicHierarchy));
            }
            let p = match self.class_area.position(current.super_class.as_slice()) {
                Some(p) => p,
                None => {
                    return Err(Error::class_resolution(&current.super_class));
                },
            };
            proof {
                self.class_area.lemma_wf();
                let next = spec_walk(ma, classes, classes[p as int], name@, desc@, (fuel - 1) as nat);
                match next {
                    Walk::Chain(x) => {
                        assert(before + (seq![current@] + x) =~= before.push(current@) + x);
                    },
                    _ => {},
                }
            }
            current = self.class_area.class_at(p);
            fuel = fuel - 1;
        }
    }

    /// The first method found through the interfaces of the classes of
    /// `chain` (see `first_in_chain`).
    fn search_interfaces(&self, chain: &Vec<Arc<Class>>, name: &[char], desc: &MethodDescriptor) -> (r: Option<
        (Arc<Class>, Arc<Method>),
    >)
        ensures
            match first_in_chain(self.method_area@, classes_view(chain@), name@, desc@) {
                Some((c, m)) => r matches Some((rc, rm)) && rc@ == c && rm@ == m,
                None => r is None,
            },
    {
        let ghost ma = self.method_area@;
        let ghost cv = classes_view(chain@);
        let mut i: usize = 0;
        assert(cv.subrange(0, cv.len() as int) =~= cv);
        while i < chain.len()
            invariant
                ma == self.method_area@,
                cv == classes_view(chain@),
                i <= chain@.len(),
                first_in_chain(ma, cv, name@, desc@) == first_in_chain(
                    ma,
                    cv.subrange(i as int, cv.len() as int),
                    name@,
                    desc@,
                ),
            decreases chain@.len() - i,
        {
            let class = &chain[i];
            let ghost ifs = class@.interfaces;
            proof {
                let rest = cv.subrange(i as int, cv.len() as int);
                assert(rest[0] == class@);
                assert(rest.drop_first() =~= cv.subrange(i + 1, cv.len() as int));
            }
            let mut j: usize = 0;
            assert(ifs.subrange(0, ifs.len() as int) =~= ifs);
            while j < class.interfaces.len()
                invariant
                    ma == self.method_area@,
                    cv == classes_view(chain@),
                    i < chain@.len(),
                    first_in_chain(ma, cv, name@, desc@) == first_in_chain(
                        ma,
                        cv.subrange(i as int, cv.len() as int),
                        name@,
                        desc@,
                    ),
                    cv.subrange(i as int, cv.len() as int)[0] == class@,
                    cv.subrange(i as int, cv.len() as int).drop_first() =~= cv.subrange(i + 1, cv.len() as int),
                    ifs == class@.interfaces,
                    j <= class.interfaces@.len(),
                    first_in_interfaces(ma, ifs, name@, desc@) == first_in_interfaces(
                        ma,
                        ifs.subrange(j as int, ifs.len() as int),
                        name@,
                        desc@,
                    ),
                decreases class.interfaces@.len() - j,
            {
                proof {
                    let rest = ifs.subrange(j as int, ifs.len() as int);
                    assert(rest[0] == class.interfaces@[j as int]@);
                    assert(rest.drop_first() =~= ifs.subrange(j + 1, ifs.len() as int));
                }
                match self.method_area.search(class.interfaces[j].as_slice(), name, desc) {
                    Some((c, m)) => {
                        if !m.code.is_abstract() {
                            assert(!(m@.code is Abstract));
                            return Some((c, m));
                        }
                    },
                    None => {},
                }
                j = j + 1;
            }
            proof {
                assert(ifs.subrange(ifs.len() as int, ifs.len() as int) =~= Seq::<Seq<char>>::empty());
            }
            i = i + 1;
        }
        proof {
            assert(cv.subrange(cv.len() as int, cv.len() as int) =~= Seq::<ClassView>::empty());
        }
        None
    }

    /// The method that calling `method` with descriptor `descriptor` on the
    /// object `ptr` runs, with its class (see `spec_resolve`).
    pub fn resolve_method(&self, ptr: u32, method: &[char], descriptor: &MethodDescriptor) -> (r: Result<
        (Arc<Class>, Arc<Method>),
        Error,
    >)
        requires
            self.class_area.wf(),
        ensures
            match spec_resolve(self.heap@, self.class_area@.classes, self.method_area@, ptr, method@, descriptor@) {
                Ok((c, m)) => r matches Ok((rc, rm)) && rc@ == c && rm@ == m,
                Err(e) => r matches Err(er) && er@ == e,
            },
    {
        let obj = match self.heap.get(ptr as usize) {
            Some(o) => o,
            None => {
                return Err(Error::Misc(Fault::NullPointer));
            },
        };
        let p = match self.class_area.position(obj.class.as_slice()) {
            Some(p) => p,
            None => {
                return Err(Error::class_resolution(&obj.class));
            },
        };
        let start = self.class_area.class_at(p);
        if obj.native_fields.len() > 0 {
            assert(obj@.native_fields[0] == obj.native_fields@[0]@);
            match &obj.native_fields[0] {
                NativeField::Lambda(l) => {
                    if chars_eq(l.method_name.as_slice(), method) && l.method_descriptor.same(descriptor) {
                        return match l.as_method() {
                            Some(m) => Ok((start, Arc::new(m))),
                            None => Err(Error::Misc(Fault::Overflow)),
                        };
                    }
                },
                _ => {},
            }
        }
        match self.walk(start, method, descriptor)? {
            Ok(v) => Ok(v),
            Err(chain) => match self.search_interfaces(&chain, method, descriptor) {
                Some(v) => Ok(v),
                None => Err(Error::Misc(Fault::MethodNotFound)),
            },
        }
    }
}

impl Thread {
    /// `invokestatic`: finds the method (class, name, descriptor), starts its
    /// class's initializer first if that has not run (the instruction then
    /// runs again afterwards), and calls it with its parameter words (see
    /// `invoke_with_args`).
    pub fn invoke_static(&mut self, class: &Vec<char>, name: &Vec<char>, desc: &MethodDescriptor) -> (r: Result<
        (),
        Error,
    >)
        requires
            old(self).wf(),
            old(self).pc_register > 0,
        ensures
            final(self).wf(),
            invoke_static_effect(*old(self), *final(self), r, class@, name@, desc@),
    {
        let (c, m) = match self.method_area.search(class.as_slice(), name.as_slice(), desc) {
            Some(v) => v,
            None => {
                return Err(Error::Misc(Fault::MethodNotFound));
            },
        };
        let ci = match self.class_area.position(c.this.as_slice()) {
            Some(ci) => ci,
            None => {
                return Err(Error::class_resolution(&c.this));
            },
        };
        proof {
            self.class_area.lemma_wf();
        }
        if self.maybe_initialize_class(ci) {
            return Ok(());
        }
        let ghost tm = *self;
        let r = match self.invoke_with_args(m, c, desc.parameter_size) {
            Ok(()) => Ok(()),
            Err(f) => Err(Error::Misc(f)),
        };
        proof {
            let k = class_position(old(self).class_area@.classes, c@.this);
            assert(k as usize == ci);
            assert(initialize_effect(*old(self), tm, false, k as usize));
        }
        r
    }

    /// `invokespecial`: a constructor `<init>` is looked up in the class
    /// named, any other method in that class's superclass; the method is
    /// called with the object and its parameter words.
    pub fn invoke_special(&mut self, class: &Vec<char>, name: &Vec<char>, desc: &MethodDescriptor) -> (r: Result<
        (),
        Error,
    >)
        requires
            old(self).wf(),
        ensures
            final(self).wf(),
            invoke_special_effect(*old(self), *final(self), r, class@, name@, desc@),
    {
        let init = vec!['<', 'i', 'n', 'i', 't', '>'];
        assert(init@ =~= init_name());
        let current = if chars_eq(name.as_slice(), init.as_slice()) {
            crate::text::copy_chars(class)
        } else {
            match self.class_area.search(class.as_slice()) {
                Some(c) => crate::text::copy_chars(&c.super_class),
                None => {
                    return Err(Error::class_resolution(class));
                },
            }
        };
        let (c, m) = match self.method_area.search(current.as_slice(), name.as_slice(), desc) {
            Some(v) => v,
            None => {
                return Err(Error::Misc(Fault::MethodNotFound));
            },
        };
        if desc.parameter_size == usize::MAX {
            return Err(Error::Misc(Fault::StackUnderflow));
        }
        match self.invoke_with_args(m, c, desc.parameter_size + 1) {
            Ok(()) => Ok(()),
            Err(f) => Err(Error::Misc(f)),
        }
    }

    /// `invokevirtual` and `invokeinterface`: the method is resolved on the
    /// object under the parameter words (see `resolve_method`) and called
    /// with the object and its parameter words.
    pub fn invoke_virtual(&mut self, name: &Vec<char>, desc: &MethodDescriptor) -> (r: Result<(), Error>)
        requires
            old(self).wf(),
        ensures
            final(self).wf(),
            invoke_virtual_effect(*old(self), *final(self), r, name@, desc@),
    {
        let len = self.stackframe.operand_stack.len();
        let n = desc.parameter_size;
        if n >= len {
            return Err(Error::Misc(Fault::StackUnderflow));
        }
        let ptr = self.stackframe.operand_stack[len - 1 - n];
        let (c, m) = self.resolve_method(ptr, name.as_slice(), desc)?;
        match self.invoke_with_args(m, c, n + 1) {
            Ok(()) => Ok(()),
            Err(f) => Err(Error::Misc(f)),
        }
    }
}

/// Whether the interface named `name` is `target` or extends it, directly or
/// through the interfaces it extends in turn (as far as they are loaded),
/// looking at most `fuel` levels up.
pub open spec fn interface_reaches(classes: Seq<ClassView>, name: Seq<char>, target: Seq<char>, fuel: nat) -> bool
    decreases fuel, 0nat,
{
    if name == target {
        true
    } else if fuel == 0 {
        false
    } else {
        let pos = class_position(classes, name);
        pos >= 0 && any_interface_reaches(classes, classes[pos].interfaces, target, (fuel - 1) as nat)
    }
}

/// Whether one of the interfaces named in `names` reaches `target` (see
/// `interface_reaches`).
pub open spec fn any_interface_reaches(classes: Seq<ClassView>, names: Seq<Seq<char>>, target: Seq<char>, fuel: nat) -> bool
    decreases fuel, names.len(),
{
    if names.len() == 0 {
        false
    } else {
        interface_reaches(classes, names[0], target, fuel) || any_interface_reaches(
            classes,
            names.drop_first(),
            target,
            fuel,
        )
    }
}

/// The walk of the instance check from the class named `cur` up its
/// superclasses: yes at `target` or at a class whose interfaces reach it;
/// no at `java/lang/Object`, or after `fuel` steps (a chain of superclasses
/// that runs in a circle); an error at a class that is not loaded.
pub open spec fn class_walk(classes: Seq<ClassView>, cur: Seq<char>, target: Seq<char>, fuel: nat) -> Result<bool, ErrorView>
    decreases fuel,
{
    let pos = class_position(classes, cur);
    if pos < 0 {
        Err(ErrorView::ClassResolution(cur))
    } else if cur == target {
        Ok(true)
    } else if any_interface_reaches(classes, classes[pos].interfaces, target, classes.len()) {
        Ok(true)
    } else if cur == object_name() || fuel == 0 {
        Ok(false)
    } else {
        class_walk(classes, classes[pos].super_class, target, (fuel - 1) as nat)
    }
}

/// Whether an object of the class named `from` is an instance of the class
/// named `target`: an error when `target` is not loaded, else the walk up
/// from `from` (see `class_walk`).
pub open spec fn spec_isinstance(classes: Seq<ClassView>, from: Seq<char>, target: Seq<char>) -> Result<bool, ErrorView> {
    if class_position(classes, target) < 0 {
        Err(ErrorView::ClassResolution(target))
    } else {
        class_walk(classes, from, target, classes.len())
    }
}

/// The class of the object at `ptr`, if there is one.
pub open spec fn class_of(h: HeapView, ptr: u32) -> Option<Seq<char>> {
    match object_at(h, ptr as int) {
        Some(o) => Some(o.class),
        None => None,
    }
}

/// Whether no loaded class names `c` as its superclass or among its
/// interfaces: `c` has no subclass and no implementer.
pub open spec fn has_no_subclass(classes: Seq<ClassView>, c: Seq<char>) -> bool {
    forall|i: int|
        #![trigger classes[i]]
        0 <= i < classes.len() ==> classes[i].super_class != c && !classes[i].interfaces.contains(c)
}

/// Interfaces that are not `c` and extend nothing naming `c` do not reach it.
proof fn lemma_interfaces_miss(classes: Seq<ClassView>, names: Seq<Seq<char>>, c: Seq<char>, fuel: nat)
    requires
        has_no_subclass(classes, c),
        !names.contains(c),
    ensures
        !any_interface_reaches(classes, names, c, fuel),
    decreases fuel, names.len(),
{
    if names.len() > 0 {
        assert(names[0] != c) by {
            assert(names.contains(names[0]));
        }
        if fuel > 0 {
            let pos = class_position(classes, names[0]);
            if pos >= 0 {
                lemma_find_key(classes.map_values(|k: ClassView| k.this), names[0]);
                assert(!classes[pos].interfaces.contains(c));
                lemma_interfaces_miss(classes, classes[pos].interfaces, c, (fuel - 1) as nat);
            }
        }
        assert forall|x: Seq<char>| names.drop_first().contains(x) implies names.contains(x) by {
            let j = choose|j: int| 0 <= j < names.drop_first().len() && names.drop_first()[j] == x;
            assert(names[j + 1] == x);
        }
        lemma_interfaces_miss(classes, names.drop_first(), c, fuel);
        assert(!interface_reaches(classes, names[0], c, fuel));
    }
}

/// The walk up from `cur` reaches a class without subclasses only at that
/// class itself.
proof fn lemma_walk_no_subclass(classes: Seq<ClassView>, cur: Seq<char>, c: Seq<char>, fuel: nat)
    requires
        has_no_subclass(classes, c),
    ensures
        class_walk(classes, cur, c, fuel) == Ok::<bool, ErrorView>(true) ==> cur == c,
    decreases fuel,
{
    let pos = class_position(classes, cur);
    if pos >= 0 && cur != c {
        lemma_find_key(classes.map_values(|k: ClassView| k.this), cur);
        assert(classes[pos].super_class != c && !classes[pos].interfaces.contains(c));
        lemma_interfaces_miss(classes, classes[pos].interfaces, c, classes.len());
        if fuel > 0 {
            lemma_walk_no_subclass(classes, classes[pos].super_class, c, (fuel - 1) as nat);
        }
    }
}

/// An object is an instance of a class that no loaded class extends or
/// implements only when it is of that very class: a thrown
/// `ArithmeticException` is no `NullPointerException`.
pub proof fn law_instance_of_leaf_class(classes: Seq<ClassView>, k: Seq<char>, c: Seq<char>)
    requires
        has_no_subclass(classes, c),
    ensures
        spec_isinstance(classes, k, c) == Ok::<bool, ErrorView>(true) ==> k == c,
{
    lemma_walk_no_subclass(classes, k, c, classes.len());
}

/// Every loaded class is an instance of itself.
pub proof fn law_instance_of_itself(classes: Seq<ClassView>, k: Seq<char>)
    requires
        class_position(classes, k) >= 0,
    ensures
        spec_isinstance(classes, k, k) == Ok::<bool, ErrorView>(true),
{
}

/// The handler that an exception lands on covers the program counter, and
/// when it names a class, the exception is an instance of that class; so a
/// handler for a class without subclasses catches only exceptions of that
/// very class.
pub proof fn law_handler_catches(classes: Seq<ClassView>, exc: Option<Seq<char>>, table: Seq<ExceptionTableEntryView>, pc: u16)
    ensures
        ({
            let h = handler_index(classes, exc, table, pc);
            h >= 0 ==> {
                &&& h < table.len()
                &&& table[h].start_pc <= pc <= table[h].end_pc
                &&& table[h].catch_type matches Some(c) ==> (exc matches Some(k) && spec_isinstance(classes, k, c)
                    == Ok::<bool, ErrorView>(true) && (has_no_subclass(classes, c) ==> k == c))
            }
        }),
    decreases table.len(),
{
    if table.len() > 0 {
        law_handler_catches(classes, exc, table.drop_last(), pc);
        let h = handler_index(classes, exc, table, pc);
        if h >= 0 {
            if let Some(c) = table[h].catch_type {
                if let Some(k) = exc {
                    if has_no_subclass(classes, c) {
                        law_instance_of_leaf_class(classes, k, c);
                    }
                }
            }
        }
    }
}

/// Whether an exception-table entry covering the instruction catches an
/// exception of the class `exc` (`None`: no object): it catches everything,
/// or the exception is an instance of its class.
pub open spec fn catches(classes: Seq<ClassView>, exc: Option<Seq<char>>, e: ExceptionTableEntryView) -> bool {
    match e.catch_type {
        None => true,
        Some(c) => match exc {
            Some(k) => spec_isinstance(classes, k, c) == Ok::<bool, ErrorView>(true),
            None => false,
        },
    }
}

/// The position of the first entry of `table` that covers `pc` and catches
/// an exception of the class `exc`, or -1.
pub open spec fn handler_index(classes: Seq<ClassView>, exc: Option<Seq<char>>, table: Seq<ExceptionTableEntryView>, pc: u16) -> int
    decreases table.len(),
{
    if table.len() == 0 {
        -1
    } else {
        let h = handler_index(classes, exc, table.drop_last(), pc);
        let e = table.last();
        if h >= 0 {
            h
        } else if e.start_pc <= pc <= e.end_pc && catches(classes, exc, e) {
            table.len() - 1
        } else {
            -1
        }
    }
}

/// Whether the interface named `name` reaches `target` (see
/// `interface_reaches`).
fn interface_reaches_exec(area: &SharedClassArea, name: &[char], target: &[char], fuel: usize) -> (r: bool)
    ensures
        r == interface_reaches(area@.classes, name@, target@, fuel as nat),
    decreases fuel, 0nat,
{
    if chars_eq(name, target) {
        return true;
    }
    if fuel == 0 {
        return false;
    }
    match area.search(name) {
        None => false,
        Some(c) => any_interface_reaches_exec(area, &c.interfaces, target, fuel - 1),
    }
}

/// Whether one of the interfaces named in `names` reaches `target` (see
/// `any_interface_reaches`).
fn any_interface_reaches_exec(area: &SharedClassArea, names: &Vec<Vec<char>>, target: &[char], fuel: usize) -> (r: bool)
    ensures
        r == any_interface_reaches(area@.classes, crate::raw_class::names_view(names@), target@, fuel as nat),
    decreases fuel, 1nat,
{
    let ghost all = crate::raw_class::names_view(names@);
    assert(all.subrange(0, all.len() as int) =~= all);
    let mut k: usize = 0;
    while k < names.len()
        invariant
            all == crate::raw_class::names_view(names@),
            k <= names@.len(),
            any_interface_reaches(area@.classes, all, target@, fuel as nat) == any_interface_reaches(
                area@.classes,
                all.subrange(k as int, all.len() as int),
                target@,
                fuel as nat,
            ),
        decreases names@.len() - k,
    {
        proof {
            let rest = all.subrange(k as int, all.len() as int);
            assert(rest[0] == names@[k as int]@);
            assert(rest.drop_first() =~= all.subrange(k + 1, all.len() as int));
        }
        if interface_reaches_exec(area, names[k].as_slice(), target, fuel) {
            return true;
        }
        k = k + 1;
    }
    false
}

impl Object {
    /// Whether this object is an instance of the class named `class` (see
    /// `spec_isinstance`), walking up from its own class.
    pub fn isinstance(&self, class_area: &SharedClassArea, class: &[char]) -> (r: Result<bool, Error>)
        ensures
            match spec_isinstance(class_area@.classes, self@.class, class@) {
                Ok(b) => r matches Ok(x) && x == b,
                Err(e) => r matches Err(er) && er@ == e,
            },
    {
        class_isinstance(class_area, self.class.as_slice(), class)
    }
}

/// Whether an object of the class named `from` is an instance of the class
/// named `class` (see `spec_isinstance`).
pub fn class_isinstance(class_area: &SharedClassArea, from: &[char], class: &[char]) -> (r: Result<bool, Error>)
    ensures
        match spec_isinstance(class_area@.classes, from@, class@) {
            Ok(b) => r matches Ok(x) && x == b,
            Err(e) => r matches Err(er) && er@ == e,
        },
{
    if class_area.search(class).is_none() {
        let name = crate::text::copy_chars_slice(class);
        return Err(Error::ClassResolution(name));
    }
    let n = class_area.class_count();
    let mut fuel: usize = n;
    let mut cur = crate::text::copy_chars_slice(from);
    let object = object_class_name();
    loop
        invariant
            n == class_area@.classes.len(),
            object@ == object_name(),
            fuel <= n,
            class_position(class_area@.classes, class@) >= 0,
            spec_isinstance(class_area@.classes, from@, class@) == class_walk(
                class_area@.classes,
                cur@,
                class@,
                fuel as nat,
            ),
        decreases fuel,
    {
        let c = match class_area.search(cur.as_slice()) {
            Some(c) => c,
            None => {
                return Err(Error::ClassResolution(cur));
            },
        };
        let ghost pos = class_position(class_area@.classes, cur@);
        proof {
            lemma_find_key(class_area@.classes.map_values(|k: ClassView| k.this), cur@);
        }
        assert(class_area@.classes[pos].interfaces == crate::raw_class::names_view(c.interfaces@));
        assert(class_area@.classes[pos].super_class == c.super_class@);
        if chars_eq(cur.as_slice(), class) {
            return Ok(true);
        }
        if any_interface_reaches_exec(class_area, &c.interfaces, class, n) {
            return Ok(true);
        }
        assert(class_walk(class_area@.classes, cur@, class@, fuel as nat) == if cur@ == object_name() || fuel == 0 {
            Ok::<bool, ErrorView>(false)
        } else {
            class_walk(class_area@.classes, c.super_class@, class@, (fuel - 1) as nat)
        });
        if chars_eq(cur.as_slice(), object.as_slice()) || fuel == 0 {
            return Ok(false);
        }
        cur = crate::text::copy_chars(&c.super_class);
        fuel = fuel - 1;
    }
}

impl Thread {
    /// The first handler of the running method's exception table that
    /// covers the program counter and catches (see `handler_index`).
    fn find_handler(&self, exc: &Option<Vec<char>>, table: &Vec<crate::code::ExceptionTableEntry>) -> (r: Option<usize>)
        ensures
            ({
                let h = handler_index(
                    self.class_area@.classes,
                    match exc {
                        Some(k) => Some(k@),
                        None => None,
                    },
                    crate::code::exception_table_view(table@),
                    self.pc_register as u16,
                );
                match r {
                    Some(i) => h == i && i < table@.len(),
                    None => h == -1,
                }
            }),
    {
        let ghost tv = crate::code::exception_table_view(table@);
        let ghost ek = match exc {
            Some(k) => Some(k@),
            None => None,
        };
        #[verifier::truncate]
        let pc = self.pc_register as u16;
        let mut i: usize = 0;
        while i < table.len()
            invariant
                tv == crate::code::exception_table_view(table@),
                pc == self.pc_register as u16,
                i <= table@.len(),
                ek == match exc {
                    Some(k) => Some(k@),
                    None => None::<Seq<char>>,
                },
                handler_index(self.class_area@.classes, ek, tv.subrange(0, i as int), pc) == -1,
            decreases table@.len() - i,
        {
            let e = &table[i];
            proof {
                assert(tv.subrange(0, i + 1).drop_last() =~= tv.subrange(0, i as int));
                assert(tv.subrange(0, i + 1).last() == e@);
            }
            if e.start_pc <= pc && pc <= e.end_pc {
                let caught = match &e.catch_type {
                    None => true,
                    Some(c) => match exc {
                        Some(k) => match class_isinstance(&self.class_area, k.as_slice(), c.as_slice()) {
                            Ok(b) => b,
                            Err(_) => false,
                        },
                        None => false,
                    },
                };
                if caught {
                    proof {
                        lemma_handler_prefix(self.class_area@.classes, ek, tv, (i + 1) as nat, pc);
                    }
                    return Some(i);
                }
            }
            i = i + 1;
        }
        assert(tv.subrange(0, tv.len() as int) =~= tv);
        None
    }

    /// Throws the exception `ptr`: the first handler covering the program
    /// counter in the running method's exception table, or else in each
    /// caller's in turn (at its return address), gets control with the
    /// exception pushed on its stack. Uncaught past the outermost frame it is
    /// a fault.
    pub fn throw(&mut self, ptr: u32) -> (r: Result<(), Fault>)
        ensures
            final(self).heap.wf() == old(self).heap.wf(),
            final(self).class_area.wf() == old(self).class_area.wf(),
            throw_effect(*old(self), *final(self), r, ptr),
    {
        let exc: Option<Vec<char>> = match self.heap.get(ptr as usize) {
            Some(o) => Some(crate::text::copy_chars(&o.class)),
            None => None,
        };
        let ghost ek = class_of(old(self).heap@, ptr);
        assert(ek == match exc {
            Some(k) => Some(k@),
            None => None::<Seq<char>>,
        });
        let ghost goal = unwind(
            old(self).class_area@.classes,
            ek,
            frames_view(old(self).stack@),
            old(self).stackframe@,
            old(self).pc_register,
            ptr,
        );
        loop
            invariant
                self.heap@ == old(self).heap@,
                self.heap.wf() == old(self).heap.wf(),
                self.class_area@ == old(self).class_area@,
                self.class_area.wf() == old(self).class_area.wf(),
                self.method_area@ == old(self).method_area@,
                ek == class_of(old(self).heap@, ptr),
                ek == match exc {
                    Some(k) => Some(k@),
                    None => None::<Seq<char>>,
                },
                goal == unwind(
                    old(self).class_area@.classes,
                    ek,
                    frames_view(old(self).stack@),
                    old(self).stackframe@,
                    old(self).pc_register,
                    ptr,
                ),
                unwind(self.class_area@.classes, ek, frames_view(self.stack@), self.stackframe@, self.pc_register, ptr)
                    == goal,
            decreases self.stack@.len(),
        {
            let method = self.stackframe.method.clone();
            assert(method@ == self.stackframe@.method);
            let bytecode = match method.code.as_bytecode() {
                Some(b) => b,
                None => {
                    assert(!(self.stackframe@.method.code is Code));
                    return Err(Fault::NoBytecode);
                },
            };
            assert(self.stackframe@.method.code == CodeView::Code(bytecode@));
            match self.find_handler(&exc, &bytecode.exception_table) {
                Some(i) => {
                    assert(crate::code::exception_table_view(bytecode.exception_table@)[i as int].handler_pc
                        == bytecode.exception_table@[i as int].handler_pc);
                    self.pc_register = bytecode.exception_table[i].handler_pc as usize;
                    self.stackframe.operand_stack.push(ptr);
                    return Ok(());
                },
                None => {},
            }
            let n = self.stack.len();
            if n == 0 {
                return Err(Fault::UncaughtException);
            }
            if self.stack[n - 1].operand_stack.len() == 0 {
                return Err(Fault::StackUnderflow);
            }
            let ghost before = frames_view(self.stack@);
            let mut caller = self.stack.pop().unwrap();
            let addr = caller.operand_stack.pop().unwrap();
            self.stackframe = caller;
            self.pc_register = addr as usize;
            assert(frames_view(self.stack@) =~= before.drop_last());
        }
    }
}

/// Where throwing the exception `ptr` from the frame `frame` at `pc`, with
/// the callers `frames`, lands: the first handler covering the program
/// counter in the frame's exception table, or else in each caller's in turn
/// (at its return address); there, the callers left, the handler's frame
/// with the exception pushed, and the handler's address. Or the fault: a
/// frame without bytecode, no handler in any frame, a caller without its
/// return address.
pub open spec fn unwind(
    classes: Seq<ClassView>,
    exc: Option<Seq<char>>,
    frames: Seq<StackFrameView>,
    frame: StackFrameView,
    pc: usize,
    ptr: u32,
) -> Result<(Seq<StackFrameView>, StackFrameView, usize), Fault>
    decreases frames.len(),
{
    match frame.method.code {
        CodeView::Code(b) => {
            let h = handler_index(classes, exc, b.exception_table, pc as u16);
            if h >= 0 {
                Ok((frames, with_stack(frame, frame.stack.push(ptr)), b.exception_table[h].handler_pc as usize))
            } else if frames.len() == 0 {
                Err(Fault::UncaughtException)
            } else if frames.last().stack.len() == 0 {
                Err(Fault::StackUnderflow)
            } else {
                let caller = frames.last();
                unwind(
                    classes,
                    exc,
                    frames.drop_last(),
                    with_stack(caller, caller.stack.drop_last()),
                    caller.stack.last() as usize,
                    ptr,
                )
            }
        },
        _ => Err(Fault::NoBytecode),
    }
}

/// Once a prefix of the table has a handler, the whole table has that one.
pub proof fn lemma_handler_prefix(classes: Seq<ClassView>, exc: Option<Seq<char>>, t: Seq<ExceptionTableEntryView>, k: nat, pc: u16)
    requires
        k <= t.len(),
        handler_index(classes, exc, t.subrange(0, k as int), pc) >= 0,
    ensures
        handler_index(classes, exc, t, pc) == handler_index(classes, exc, t.subrange(0, k as int), pc),
    decreases t.len() - k,
{
    if k < t.len() {
        let s = t.subrange(0, k + 1 as int);
        assert(s.drop_last() =~= t.subrange(0, k as int));
        lemma_handler_prefix(classes, exc, t, k + 1, pc);
    } else {
        assert(t.subrange(0, k as int) =~= t);
    }
}

/// How a step of a thread ended, when it did not fail.
pub enum Step {
    /// the instruction ran
    Done,
    /// the running method is native: the host runs its implementation
    /// number `id`
    Native(u32),
    /// the instruction (at the program counter minus one) works on floating
    /// point: the host runs it on the running frame
    Float,
    /// a string concatenation with `float` or `double` arguments: the host
    /// writes the pieces out and finishes with `push_string`
    Concat(Vec<crate::dynamic::ConcatPiece>),
}

/// Whether an instruction works on floating point.
pub open spec fn is_float(i: InstructionView) -> bool {
    ||| i is FOp
    ||| i is DOp
    ||| i is FCmp
    ||| i is DCmp
    ||| i is Convert
}

/// The name `java/lang/ArithmeticException`.
pub open spec fn arithmetic_exception() -> Seq<char> {
    seq![
        'j', 'a', 'v', 'a', '/', 'l', 'a', 'n', 'g', '/', 'A', 'r', 'i', 't', 'h', 'm', 'e', 't', 'i', 'c',
        'E', 'x', 'c', 'e', 'p', 't', 'i', 'o', 'n',
    ]
}

/// The name `java/lang/ArithmeticException`.
fn arithmetic_exception_name() -> (r: Vec<char>)
    ensures
        r@ == arithmetic_exception(),
{
    let r = vec![
        'j', 'a', 'v', 'a', '/', 'l', 'a', 'n', 'g', '/', 'A', 'r', 'i', 't', 'h', 'm', 'e', 't', 'i', 'c',
        'E', 'x', 'c', 'e', 'p', 't', 'i', 'o', 'n',
    ];
    assert(r@ =~= arithmetic_exception());
    r
}

/// What throwing the exception `ptr` does to a thread when `r` is the
/// outcome (see `Thread::throw` and `unwind`); the heap, classes and methods
/// are left as they are.
pub open spec fn throw_effect(t0: Thread, t1: Thread, r: Result<(), Fault>, ptr: u32) -> bool {
    &&& t1.heap@ == t0.heap@
    &&& t1.class_area@ == t0.class_area@
    &&& t1.method_area@ == t0.method_area@
    &&& match unwind(
        t0.class_area@.classes,
        class_of(t0.heap@, ptr),
        frames_view(t0.stack@),
        t0.stackframe@,
        t0.pc_register,
        ptr,
    ) {
        Ok((fs, f, pc)) => r is Ok && frames_view(t1.stack@) == fs && t1.stackframe@ == f && t1.pc_register == pc,
        Err(e) => r == Err::<(), Fault>(e),
    }
}

/// What throwing a new `java/lang/ArithmeticException` does to a thread:
/// the new instance is put on the heap uncounted, then thrown (see
/// `throw_effect`).
pub open spec fn arithmetic_throw_effect(t0: Thread, t1: Thread, r: Result<(), Error>) -> bool {
    let k = class_position(t0.class_area@.classes, arithmetic_exception());
    if k < 0 {
        (r matches Err(e) && e@ == ErrorView::ClassResolution(arithmetic_exception())) && same_thread(&t1, &t0)
    } else {
        let c = t0.class_area@.classes[k];
        let o = ObjectView { fields: c.initial_fields, native_fields: seq![], class: c.this };
        let ptr = ((t0.heap@.contents.len() + crate::data::HEAP_START) % 0x1_0000_0000) as u32;
        let h = HeapView {
            contents: t0.heap@.contents.push(Some(o)),
            refcounts: t0.heap@.refcounts.push(0),
            strings: t0.heap@.strings,
            class_objects: t0.heap@.class_objects,
        };
        &&& t1.heap@ == h
        &&& t1.class_area@ == t0.class_area@
        &&& t1.method_area@ == t0.method_area@
        &&& misc_only(r)
        &&& match unwind(t0.class_area@.classes, class_of(h, ptr), frames_view(t0.stack@), t0.stackframe@, t0.pc_register, ptr) {
            Ok((fs, f, pc)) => r is Ok && frames_view(t1.stack@) == fs && t1.stackframe@ == f && t1.pc_register == pc,
            Err(e) => fault_of(r) == Err::<(), Fault>(e),
        }
    }
}

impl Thread {
    /// Throws a new `java/lang/ArithmeticException` (see `throw`).
    fn throw_arithmetic(&mut self) -> (r: Result<(), Error>)
        requires
            old(self).wf(),
        ensures
            final(self).wf(),
            arithmetic_throw_effect(*old(self), *final(self), r),
    {
        let name = arithmetic_exception_name();
        let class = match self.class_area.search(name.as_slice()) {
            Some(c) => c,
            None => {
                return Err(Error::class_resolution(&name));
            },
        };
        let ptr = self.heap.allocate(Object::from_class(&class));
        match self.throw(ptr) {
            Ok(()) => Ok(()),
            Err(f) => Err(Error::Misc(f)),
        }
    }

    /// Resolves the class named `class` and starts its initializer if that
    /// has not run: `Ok(Some(ci))` with its position when it is ready,
    /// `Ok(None)` when the initializer was called (see
    /// `maybe_initialize_class`).
    fn ready_class(&mut self, class: &Vec<char>) -> (r: Result<Option<usize>, Error>)
        requires
            old(self).wf(),
            old(self).pc_register > 0,
        ensures
            final(self).wf(),
            r matches Ok(Some(ci)) ==> ci < final(self).class_area@.classes.len()
                && ci == class_position(old(self).class_area@.classes, class@),
            after_ready(
                *old(self),
                *final(self),
                r,
                None,
                class@,
                |a: Thread, b: Thread, at: usize| r == Ok::<Option<usize>, Error>(Some(at)) && b == a,
            ),
    {
        let ci = match self.class_area.position(class.as_slice()) {
            Some(ci) => ci,
            None => {
                return Err(Error::class_resolution(class));
            },
        };
        proof {
            self.class_area.lemma_wf();
        }
        if self.maybe_initialize_class(ci) {
            Ok(None)
        } else {
            let r: Result<Option<usize>, Error> = Ok(Some(ci));
            proof {
                let tm = *self;
                let k = class_position(old(self).class_area@.classes, class@);
                assert(k as usize == ci);
                assert(initialize_effect(*old(self), tm, false, k as usize));
            }
            r
        }
    }

    /// Runs an instruction that needs more than the running frame: the
    /// heap, the classes, other frames. Floating point is left to the host.
    /// `getstatic`, `putstatic` and `new`: the class named is made ready
    /// first (see `ready_class`).
    #[verifier::spinoff_prover]
    fn execute_static(&mut self, instr: &Instruction) -> (r: Result<Step, Error>)
        requires
            old(self).wf(),
            old(self).pc_register > 0,
            instr@ is GetStatic || instr@ is PutStatic || instr@ is New,
        ensures
            final(self).wf(),
            machine_effect(*old(self), *final(self), r, instr@),
    {
        match instr {
            Instruction::GetStatic(class, name, ty) => match self.ready_class(class) {
                Err(e) => Err(e),
                Ok(None) => Ok(Step::Done),
                Ok(Some(ci)) => {
                    let ghost tm = *self;
                    let r = match self.get_static_at(ci, name, ty) {
                        Ok(()) => Ok(Step::Done),
                        Err(f) => Err(Error::Misc(f)),
                    };
                    proof {
                        let k = class_position(old(self).class_area@.classes, class@);
                        if !old(self).class_area@.states[k].initialized {
                            assert(initialize_effect(*old(self), tm, false, k as usize));
                        }
                    }
                    r
                },
            },
            Instruction::PutStatic(class, name, ty) => match self.ready_class(class) {
                Err(e) => Err(e),
                Ok(None) => Ok(Step::Done),
                Ok(Some(ci)) => {
                    let ghost tm = *self;
                    let r = match self.put_static_at(ci, name, ty) {
                        Ok(()) => Ok(Step::Done),
                        Err(e) => Err(e),
                    };
                    proof {
                        let k = class_position(old(self).class_area@.classes, class@);
                        if !old(self).class_area@.states[k].initialized {
                            assert(initialize_effect(*old(self), tm, false, k as usize));
                        }
                    }
                    r
                },
            },
            Instruction::New(class) => match self.ready_class(class) {
                Err(e) => Err(e),
                Ok(None) => Ok(Step::Done),
                Ok(Some(ci)) => {
                    let ghost tm = *self;
                    let r = match self.new_object_at(ci) {
                        Ok(()) => Ok(Step::Done),
                        Err(f) => Err(Error::Misc(f)),
                    };
                    proof {
                        let k = class_position(old(self).class_area@.classes, class@);
                        if !old(self).class_area@.states[k].initialized {
                            assert(initialize_effect(*old(self), tm, false, k as usize));
                        }
                    }
                    r
                },
            },
            _ => Err(Error::Misc(Fault::Unsupported)),
        }
    }

    /// The invoke instructions.
    #[verifier::spinoff_prover]
    fn execute_invoke(&mut self, instr: &Instruction) -> (r: Result<Step, Error>)
        requires
            old(self).wf(),
            old(self).pc_register > 0,
            instr@ is InvokeDynamic || instr@ is InvokeVirtual || instr@ is InvokeInterface || instr@ is InvokeSpecial || instr@ is InvokeStatic,
        ensures
            final(self).wf(),
            machine_effect(*old(self), *final(self), r, instr@),
    {
        match instr {
            Instruction::InvokeDynamic(index, name, desc) => self.invoke_dynamic(*index, name, desc),
            Instruction::InvokeVirtual(_, name, desc) | Instruction::InvokeInterface(_, name, desc) => {
                match self.invoke_virtual(name, desc) {
                    Ok(()) => Ok(Step::Done),
                    Err(e) => Err(e),
                }
            },
            Instruction::InvokeSpecial(class, name, desc) => match self.invoke_special(class, name, desc) {
                Ok(()) => Ok(Step::Done),
                Err(e) => Err(e),
            },
            Instruction::InvokeStatic(class, name, desc) => match self.invoke_static(class, name, desc) {
                Ok(()) => Ok(Step::Done),
                Err(e) => Err(e),
            },
            _ => Err(Error::Misc(Fault::Unsupported)),
        }
    }

    /// The instructions that make strings and objects or read and write fields.
    #[verifier::spinoff_prover]
    fn execute_object(&mut self, instr: &Instruction) -> (r: Result<Step, Error>)
        requires
            old(self).wf(),
            old(self).pc_register > 0,
            instr@ is LoadString || instr@ is NewMultiArray || instr@ is GetField || instr@ is PutField,
        ensures
            final(self).wf(),
            machine_effect(*old(self), *final(self), r, instr@),
    {
        match instr {
            Instruction::LoadString(s) => match self.push_string(crate::text::copy_chars(s)) {
                Ok(()) => Ok(Step::Done),
                Err(f) => Err(Error::Misc(f)),
            },
            Instruction::NewMultiArray(dims, ty) => match self.new_multi_array(*dims, ty) {
                Ok(()) => Ok(Step::Done),
                Err(f) => Err(Error::Misc(f)),
            },
            Instruction::GetField(Some(idx), _, _, ty) => match self.get_field_at(*idx, ty) {
                Ok(()) => Ok(Step::Done),
                Err(f) => Err(Error::Misc(f)),
            },
            Instruction::PutField(Some(idx), _, _, ty) => match self.put_field_at(*idx, ty) {
                Ok(()) => Ok(Step::Done),
                Err(e) => Err(e),
            },
            _ => Err(Error::Misc(Fault::Unsupported)),
        }
    }

    /// The instructions on one-dimensional arrays.
    #[verifier::spinoff_prover]
    fn execute_array(&mut self, instr: &Instruction) -> (r: Result<Step, Error>)
        requires
            old(self).wf(),
            old(self).pc_register > 0,
            instr@ is NewArray1 || instr@ is NewArray2 || instr@ is ArrayLength || instr@ is ArrayLoad1 || instr@ is ArrayLoad2 || instr@ is ArrayStore1 || instr@ is ArrayStore2,
        ensures
            final(self).wf(),
            machine_effect(*old(self), *final(self), r, instr@),
    {
        match instr {
            Instruction::NewArray1(ty) => match self.new_array(ty.copy(), false) {
                Ok(()) => Ok(Step::Done),
                Err(f) => Err(Error::Misc(f)),
            },
            Instruction::NewArray2(ty) => match self.new_array(ty.copy(), true) {
                Ok(()) => Ok(Step::Done),
                Err(f) => Err(Error::Misc(f)),
            },
            Instruction::ArrayLength => match self.array_length() {
                Ok(()) => Ok(Step::Done),
                Err(f) => Err(Error::Misc(f)),
            },
            Instruction::ArrayLoad1 => match self.array_load(false) {
                Ok(()) => Ok(Step::Done),
                Err(f) => Err(Error::Misc(f)),
            },
            Instruction::ArrayLoad2 => match self.array_load(true) {
                Ok(()) => Ok(Step::Done),
                Err(f) => Err(Error::Misc(f)),
            },
            Instruction::ArrayStore1 => match self.array_store(false) {
                Ok(()) => Ok(Step::Done),
                Err(e) => Err(e),
            },
            Instruction::ArrayStore2 => match self.array_store(true) {
                Ok(()) => Ok(Step::Done),
                Err(e) => Err(e),
            },
            _ => Err(Error::Misc(Fault::Unsupported)),
        }
    }

    /// The instructions that return, throw or check a cast.
    #[verifier::spinoff_prover]
    fn execute_control(&mut self, instr: &Instruction) -> (r: Result<Step, Error>)
        requires
            old(self).wf(),
            old(self).pc_register > 0,
            instr@ is Return0 || instr@ is Return1 || instr@ is Return2 || instr@ is AThrow || instr@ is CheckedCast,
        ensures
            final(self).wf(),
            machine_effect(*old(self), *final(self), r, instr@),
    {
        match instr {
            Instruction::Return0 => match self.return_void() {
                Ok(()) => Ok(Step::Done),
                Err(e) => Err(e),
            },
            Instruction::Return1 => match self.return_one() {
                Ok(()) => Ok(Step::Done),
                Err(f) => Err(Error::Misc(f)),
            },
            Instruction::Return2 => match self.return_two() {
                Ok(()) => Ok(Step::Done),
                Err(f) => Err(Error::Misc(f)),
            },
            Instruction::AThrow => {
                let ptr = match self.stackframe.operand_stack.pop() {
                    Some(p) => p,
                    None => {
                        return Err(Error::Misc(Fault::StackUnderflow));
                    },
                };
                match self.throw(ptr) {
                    Ok(()) => Ok(Step::Done),
                    Err(f) => Err(Error::Misc(f)),
                }
            },
            Instruction::CheckedCast(ty) => {
                let n = self.stackframe.operand_stack.len();
                if n == 0 {
                    return Err(Error::Misc(Fault::StackUnderflow));
                }
                let ptr = self.stackframe.operand_stack[n - 1];
                if ptr != crate::data::NULL {
                    let works = match self.heap.get(ptr as usize) {
                        Some(o) => match o.isinstance(&self.class_area, ty.as_slice()) {
                            Ok(b) => b,
                            Err(_) => false,
                        },
                        None => false,
                    };
                    if !works {
                        return Err(Error::Misc(Fault::FailedCast));
                    }
                }
                Ok(Step::Done)
            },
            _ => Err(Error::Misc(Fault::Unsupported)),
        }
    }

    pub fn execute_machine(&mut self, instr: &Instruction) -> (r: Result<Step, Error>)
        requires
            old(self).wf(),
            old(self).pc_register > 0,
        ensures
            final(self).wf(),
            machine_effect(*old(self), *final(self), r, instr@),
    {
        match instr {
            Instruction::FOp(_) | Instruction::DOp(_) | Instruction::FCmp(_) | Instruction::DCmp(_)
            | Instruction::Convert(_, _) => Ok(Step::Float),
            Instruction::GetStatic(..) | Instruction::PutStatic(..) | Instruction::New(_) => self.execute_static(instr),
            Instruction::InvokeDynamic(..) | Instruction::InvokeVirtual(..) | Instruction::InvokeInterface(..)
            | Instruction::InvokeSpecial(..) | Instruction::InvokeStatic(..) => self.execute_invoke(instr),
            Instruction::LoadString(_) | Instruction::NewMultiArray(..) | Instruction::GetField(..)
            | Instruction::PutField(..) => self.execute_object(instr),
            Instruction::NewArray1(_) | Instruction::NewArray2(_) | Instruction::ArrayLength | Instruction::ArrayLoad1
            | Instruction::ArrayLoad2 | Instruction::ArrayStore1 | Instruction::ArrayStore2 => self.execute_array(instr),
            Instruction::Return0 | Instruction::Return1 | Instruction::Return2 | Instruction::AThrow
            | Instruction::CheckedCast(_) => self.execute_control(instr),
            _ => Err(Error::Misc(Fault::Unsupported)),
        }
    }

    /// Runs one step of the thread: for a native method, hands it to the
    /// host; otherwise runs the instruction at the program counter, which
    /// moves past it first. An instruction that needs only the running frame
    /// does what `spec_local` says; a long division by zero throws an
    /// `ArithmeticException`; the others run by `execute_machine`.
    pub fn tick(&mut self) -> (r: Result<Step, Error>)
        requires
            old(self).wf(),
        ensures
            final(self).wf(),
            old(self).stackframe@.method.code is Native ==> r == Ok::<Step, Error>(
                Step::Native(old(self).stackframe@.method.code->Native_0),
            ) && same_thread(final(self), old(self)),
            old(self).stackframe@.method.code is Abstract ==> (r matches Err(Error::Misc(f)) && f == Fault::NoBytecode)
                && same_thread(final(self), old(self)),
            old(self).stackframe@.method.code is Code && old(self).pc_register
                >= old(self).stackframe@.method.code->Code_0.code.len() ==> (r matches Err(Error::Misc(f)) && f
                == Fault::PcOutOfRange) && same_thread(final(self), old(self)),
            old(self).stackframe@.method.code is Code && old(self).pc_register
                < old(self).stackframe@.method.code->Code_0.code.len() ==> {
                let i = old(self).stackframe@.method.code->Code_0.code[old(self).pc_register as int];
                let f = old(self).stackframe@;
                match spec_local(f.locals, f.stack, (old(self).pc_register + 1) as usize, i) {
                    LocalEffect::Next(ls, st, p) => {
                        &&& r == Ok::<Step, Error>(Step::Done)
                        &&& final(self).stackframe@ == (StackFrameView { locals: ls, stack: st, ..f })
                        &&& final(self).pc_register == p
                        &&& frames_view(final(self).stack@) == frames_view(old(self).stack@)
                        &&& final(self).heap@ == old(self).heap@
                        &&& final(self).class_area@ == old(self).class_area@
                        &&& final(self).method_area@ == old(self).method_area@
                    },
                    LocalEffect::Fail(fault) => (r matches Err(Error::Misc(g)) && g == fault)
                        && final(self).stackframe@ == f && final(self).pc_register == old(self).pc_register + 1,
                    LocalEffect::Host => exists|tp: Thread|
                        #[trigger] machine_effect(tp, *final(self), r, i) && tp.pc_register == old(self).pc_register + 1
                            && tp.stackframe@ == f && tp.stack == old(self).stack && tp.heap == old(self).heap
                            && tp.class_area == old(self).class_area && tp.method_area == old(self).method_area,
                    LocalEffect::Throw(st) => (r is Ok ==> r == Ok::<Step, Error>(Step::Done)) && exists|tp: Thread|
                        #[trigger] arithmetic_throw_effect(tp, *final(self), unit_of(r)) && tp.pc_register
                            == old(self).pc_register + 1 && tp.stackframe@ == (StackFrameView { stack: st, ..f })
                            && tp.stack == old(self).stack && tp.heap == old(self).heap && tp.class_area
                            == old(self).class_area && tp.method_area == old(self).method_area,
                }
            },
    {
        let method = self.stackframe.method.clone();
        match method.code.as_native() {
            Some(id) => {
                return Ok(Step::Native(id));
            },
            None => {},
        }
        let bytecode = match method.code.as_bytecode() {
            Some(b) => b,
            None => {
                return Err(Error::Misc(Fault::NoBytecode));
            },
        };
        if self.pc_register >= bytecode.code.len() {
            return Err(Error::Misc(Fault::PcOutOfRange));
        }
        let instr = &bytecode.code[self.pc_register];
        assert(crate::code::instructions_view(bytecode.code@)[self.pc_register as int] == instr@);
        self.pc_register = self.pc_register + 1;
        match execute_local(&mut self.stackframe, &mut self.pc_register, instr) {
            Ok(LocalStep::Next) => Ok(Step::Done),
            Ok(LocalStep::Throw) => {
                let ghost tp = *self;
                let r = match self.throw_arithmetic() {
                    Ok(()) => Ok(Step::Done),
                    Err(e) => Err(e),
                };
                assert(arithmetic_throw_effect(tp, *self, unit_of(r)));
                r
            },
            Ok(LocalStep::Host) => {
                let ghost tp = *self;
                let r = self.execute_machine(instr);
                assert(machine_effect(tp, *self, r, instr@));
                r
            },
            Err(f) => Err(Error::Misc(f)),
        }
    }
}

impl Thread {
    /// Pushes the reference of the string object for `text` (the one kept
    /// for it, or a new one; see `Heap::allocate_str`), counted once more.
    pub fn push_string(&mut self, text: Vec<char>) -> (r: Result<(), Fault>)
        requires
            old(self).wf(),
        ensures
            final(self).wf(),
            push_string_effect(*old(self), *final(self), r, text@),
    {
        let ptr = self.heap.allocate_str(text);
        match self.heap.inc_ref(ptr) {
            Ok(()) => {},
            Err(f) => {
                return Err(f);
            },
        }
        self.stackframe.operand_stack.push(ptr);
        Ok(())
    }
}

/// Calling a method and then returning from it brings the caller back: the
/// frames under it as they were, its own frame as before the call with the
/// returned words on top, and the program counter at the return address that
/// the call left.
pub proof fn law_call_then_return(stack: Seq<StackFrameView>, frame: StackFrameView, addr: u32, ws: Seq<u32>)
    ensures
        ({
            let called = stack.push(with_stack(frame, frame.stack.push(addr)));
            let caller = called.last();
            &&& caller.stack.len() > 0
            &&& caller.stack.last() == addr
            &&& called.drop_last() == stack
            &&& with_stack(caller, caller.stack.drop_last() + ws) == with_stack(frame, frame.stack + ws)
        }),
{
    let called = stack.push(with_stack(frame, frame.stack.push(addr)));
    assert(called.drop_last() =~= stack);
    assert(frame.stack.push(addr).drop_last() =~= frame.stack);
}

/// The descriptor `([Ljava/lang/String;)V` of `main`.
pub open spec fn main_descriptor() -> crate::class::MethodDescriptorView {
    crate::class::MethodDescriptorView {
        parameter_size: 1,
        parameters: seq![crate::class::FieldTypeView::Array(Box::new(crate::class::FieldTypeView::Object("java/lang/String"@)))],
        return_type: None,
    }
}

/// The thread that runs `main(String[])` of the class `class`, on an empty
/// heap: about to run the method's first instruction, with no caller.
/// Refused when the class has no such method.
pub fn main_thread(class: &Vec<char>, method_area: MethodArea, class_area: SharedClassArea) -> (r: Result<Thread, Error>)
    requires
        class_area.wf(),
    ensures
        match lookup_entry(method_area@, (class@, "main"@, main_descriptor())) {
            None => r == Err::<Thread, Error>(Error::Misc(Fault::MethodNotFound)),
            Some((c, m)) => r matches Ok(t) && t.wf() && t.pc_register == 0 && t.stack@.len() == 0
                && t.stackframe@ == (StackFrameView { locals: Seq::new(m.max_locals as nat + 1, |i: int| 0u32), stack: seq![], method: m, class: c })
                && t.heap@.contents.len() == 0 && t.heap@.strings.len() == 0
                && t.method_area@ == method_area@ && t.class_area@ == class_area@,
        },
{
    let name = crate::text::chars("main");
    let elem = FieldType::Object(crate::text::chars("java/lang/String"));
    assert(elem@ == crate::class::FieldTypeView::Object("java/lang/String"@));
    let arr = FieldType::Array(Box::new(elem));
    assert(arr@ == crate::class::FieldTypeView::Array(Box::new(crate::class::FieldTypeView::Object("java/lang/String"@))));
    let desc = MethodDescriptor { parameter_size: 1, parameters: vec![arr], return_type: None };
    assert(desc.parameters@.len() == 1);
    assert(desc.parameters@[0]@ == arr@);
    assert(desc@ == main_descriptor()) by {
        assert(crate::class::field_types_view(desc.parameters@) =~= main_descriptor().parameters);
    }
    let (c, m) = match method_area.search(class.as_slice(), name.as_slice(), &desc) {
        Some(v) => v,
        None => {
            return Err(Error::Misc(Fault::MethodNotFound));
        },
    };
    let frame = StackFrame::from_method(m, c);
    assert(frame@.stack =~= Seq::<u32>::empty());
    Ok(Thread { pc_register: 0, stack: Vec::new(), stackframe: frame, method_area, class_area, heap: Heap::new() })
}


/// What `return` does to a thread `t0`, leaving `t1` with the result `r`
/// (see `Thread::return_void`).
pub open spec fn return_void_effect(t0: Thread, t1: Thread, r: Result<(), Error>) -> bool {
    &&& t0.stack@.len() == 0 ==> (r matches Err(Error::ThreadKill)) && t1 == t0
    &&& t0.stack@.len() > 0 && t0.stack@.last().operand_stack@.len() == 0 ==> (r matches Err(
        Error::Misc(f),
    ) && f == Fault::StackUnderflow) && t1 == t0
    &&& t0.stack@.len() > 0 && t0.stack@.last().operand_stack@.len() > 0 ==> {
        let caller = t0.stack@.last()@;
        &&& r is Ok
        &&& frames_view(t1.stack@) == frames_view(t0.stack@.drop_last())
        &&& t1.stackframe@ == StackFrameView { stack: caller.stack.drop_last(), ..caller }
        &&& t1.pc_register == caller.stack.last() as usize
        &&& t1.heap == t0.heap
        &&& t1.class_area == t0.class_area
        &&& t1.method_area == t0.method_area
    }
}

/// What `ireturn`/`areturn` does to a thread (see `Thread::return_one`).
pub open spec fn return_one_effect(t0: Thread, t1: Thread, r: Result<(), Fault>) -> bool {
    &&& t0.stack@.len() == 0 ==> r == Err::<(), Fault>(Fault::NoCaller) && t1 == t0
    &&& t0.stack@.len() > 0 && t0.stackframe@.method.descriptor.return_type is None ==> r
        == Err::<(), Fault>(Fault::Unsupported) && t1 == t0
    &&& t0.stack@.len() > 0 && t0.stackframe@.method.descriptor.return_type is Some && (
    t0.stackframe@.stack.len() == 0 || t0.stack@.last()@.stack.len() == 0) ==> r
        == Err::<(), Fault>(Fault::StackUnderflow) && t1 == t0
    &&& t0.stack@.len() > 0 && t0.stackframe@.method.descriptor.return_type is Some
        && t0.stackframe@.stack.len() > 0 && t0.stack@.last()@.stack.len() > 0 ==> {
        let v = t0.stackframe@.stack.last();
        let caller = t0.stack@.last()@;
        let counted = if t0.stackframe@.method.descriptor.return_type->Some_0.is_reference() {
            spec_inc_ref(t0.heap@, v)
        } else {
            Ok(t0.heap@)
        };
        match counted {
            Err(f) => r == Err::<(), Fault>(f) && same_thread(&t1, &t0),
            Ok(h) => {
                &&& r is Ok
                &&& t1.heap@ == h
                &&& frames_view(t1.stack@) == frames_view(t0.stack@.drop_last())
                &&& t1.stackframe@ == with_stack(caller, caller.stack.drop_last().push(v))
                &&& t1.pc_register == caller.stack.last() as usize
                &&& t1.class_area == t0.class_area
                &&& t1.method_area == t0.method_area
            },
        }
    }
}

/// What `lreturn` does to a thread (see `Thread::return_two`).
pub open spec fn return_two_effect(t0: Thread, t1: Thread, r: Result<(), Fault>) -> bool {
    &&& t0.stack@.len() == 0 ==> r == Err::<(), Fault>(Fault::NoCaller) && t1 == t0
    &&& t0.stack@.len() > 0 && (t0.stackframe@.stack.len() < 2 || t0.stack@.last()@.stack.len() == 0)
        ==> r == Err::<(), Fault>(Fault::StackUnderflow) && t1 == t0
    &&& t0.stack@.len() > 0 && t0.stackframe@.stack.len() >= 2 && t0.stack@.last()@.stack.len() > 0 ==> {
        let st = t0.stackframe@.stack;
        let caller = t0.stack@.last()@;
        &&& r is Ok
        &&& frames_view(t1.stack@) == frames_view(t0.stack@.drop_last())
        &&& t1.stackframe@ == with_stack(
            caller,
            caller.stack.drop_last().push(st[st.len() - 2]).push(st.last()),
        )
        &&& t1.pc_register == caller.stack.last() as usize
        &&& t1.heap == t0.heap
        &&& t1.class_area == t0.class_area
        &&& t1.method_area == t0.method_area
    }
}

/// What starting the initializer of the class at position `ci` does to a
/// thread, `r` telling whether `<clinit>` was called (see
/// `Thread::maybe_initialize_class`).
pub open spec fn initialize_effect(t0: Thread, t1: Thread, r: bool, ci: usize) -> bool {
    &&& t0.class_area@.states[ci as int].initialized ==> !r && t1 == t0
    &&& !t0.class_area@.states[ci as int].initialized ==> t1.class_area@.classes
        == t0.class_area@.classes
    &&& !t0.class_area@.states[ci as int].initialized ==> t1.class_area@.states
        == t0.class_area@.states.update(
        ci as int,
        crate::data::ClassStateView { initialized: true, ..t0.class_area@.states[ci as int] },
    )
    &&& t1.heap@ == t0.heap@
    &&& t1.method_area@ == t0.method_area@
    &&& !t0.class_area@.states[ci as int].initialized ==> match lookup_entry(
        t0.method_area@,
        (t0.class_area@.classes[ci as int].this, clinit_name(), clinit_descriptor()),
    ) {
        None => !r && t1.pc_register == t0.pc_register && t1.stack
            == t0.stack && t1.stackframe == t0.stackframe,
        Some((c, m)) => r && t1.pc_register == 0 && frames_view(t1.stack@)
            == frames_view(t0.stack@).push(
            with_stack(
                t0.stackframe@,
                t0.stackframe@.stack.push((t0.pc_register - 1) as u32),
            ),
        ) && t1.stackframe@ == fresh_frame(m, c),
    }
}

/// A class initializer is started at most once: after a first request to
/// initialize the class at `ci`, a second one changes nothing and answers
/// no.
pub proof fn law_initialize_once(t0: Thread, t1: Thread, t2: Thread, r1: bool, r2: bool, ci: usize)
    requires
        ci < t0.class_area@.states.len(),
        initialize_effect(t0, t1, r1, ci),
        initialize_effect(t1, t2, r2, ci),
    ensures
        !r2,
        t2 == t1,
        t1.class_area@.states[ci as int].initialized,
{
}

/// What `getstatic` of the static `name` of type `ty` of the class at
/// position `ci` does to a thread (see `Thread::get_static_at`).
pub open spec fn get_static_effect(t0: Thread, t1: Thread, r: Result<(), Fault>, ci: usize, name: Seq<char>, ty: FieldTypeView) -> bool {
    &&& ({
        let c = t0.class_area@.classes[ci as int];
        let data = t0.class_area@.states[ci as int].static_data;
        let k = static_index(c, name);
        let p = c.statics[k].1 as int;
        let st = t0.stackframe@.stack;
        if k < 0 {
            r == Err::<(), Fault>(Fault::StaticNotFound) && same_thread(&t1, &t0)
        } else if ty.size() == 1 {
            if p >= data.len() {
                r == Err::<(), Fault>(Fault::FieldOutOfRange) && same_thread(&t1, &t0)
            } else {
                match (if ty.is_reference() { spec_inc_ref(t0.heap@, data[p]) } else { Ok(t0.heap@) }) {
                    Err(f) => r == Err::<(), Fault>(f) && same_thread(&t1, &t0),
                    Ok(h) => r is Ok && t1.heap@ == h && t1.stackframe@ == with_stack(
                        t0.stackframe@,
                        st.push(data[p]),
                    ) && t1.pc_register == t0.pc_register && frames_view(t1.stack@)
                        == frames_view(t0.stack@) && t1.class_area@ == t0.class_area@
                        && t1.method_area@ == t0.method_area@,
                }
            }
        } else if p + 1 >= data.len() {
            r == Err::<(), Fault>(Fault::FieldOutOfRange) && same_thread(&t1, &t0)
        } else {
            r is Ok && t1.stackframe@ == with_stack(
                t0.stackframe@,
                st.push(data[p]).push(data[p + 1]),
            ) && t1.heap@ == t0.heap@ && t1.pc_register == t0.pc_register
                && frames_view(t1.stack@) == frames_view(t0.stack@)
                && t1.class_area@ == t0.class_area@
                && t1.method_area@ == t0.method_area@
        }
    })
}

/// What `putstatic` of the static `name` of type `ty` of the class at
/// position `ci` does to a thread (see `Thread::put_static_at`).
pub open spec fn put_static_effect(t0: Thread, t1: Thread, r: Result<(), Error>, ci: usize, name: Seq<char>, ty: FieldTypeView) -> bool {
    &&& ({
        let c = t0.class_area@.classes[ci as int];
        let data = t0.class_area@.states[ci as int].static_data;
        let k = static_index(c, name);
        let p = c.statics[k].1 as int;
        let st = t0.stackframe@.stack;
        let n = ty.size() as int;
        if k < 0 {
            (r matches Err(Error::Misc(f)) && f == Fault::StaticNotFound) && same_thread(&t1, &t0)
        } else if st.len() < n {
            (r matches Err(Error::Misc(f)) && f == Fault::StackUnderflow) && same_thread(&t1, &t0)
        } else if p + n > data.len() {
            (r matches Err(Error::Misc(f)) && f == Fault::FieldOutOfRange) && same_thread(&t1, &t0)
        } else {
            let new_data = if n == 1 {
                data.update(p, st.last())
            } else {
                data.update(p, st[st.len() - 2]).update(p + 1, st.last())
            };
            &&& ty.is_reference() ==> match crate::heap::release_all(t0.heap@, t0.class_area@.classes, seq![data[p]]) {
                Err(e) => r matches Err(er) && er@ == e,
                Ok(h2) => match spec_inc_ref(h2, st.last()) {
                    Err(f) => r matches Err(Error::Misc(g)) && g == f,
                    Ok(h3) => r is Ok && t1.heap@ == h3,
                },
            }
            &&& r is Ok ==> {
                &&& t1.stackframe@ == with_stack(t0.stackframe@, drop_n(st, n))
                &&& t1.class_area@.classes == t0.class_area@.classes
                &&& t1.class_area@.states == t0.class_area@.states.update(
                    ci as int,
                    crate::data::ClassStateView { static_data: new_data, ..t0.class_area@.states[ci as int] },
                )
                &&& t1.pc_register == t0.pc_register
                &&& frames_view(t1.stack@) == frames_view(t0.stack@)
                &&& t1.method_area@ == t0.method_area@
                &&& !ty.is_reference() ==> t1.heap@ == t0.heap@
            }
        }
    })
}

/// What `getfield` of the field words at `idx` of type `ty` does to a
/// thread (see `Thread::get_field_at`).
pub open spec fn get_field_effect(t0: Thread, t1: Thread, r: Result<(), Fault>, idx: usize, ty: FieldTypeView) -> bool {
    &&& ({
        let st = t0.stackframe@.stack;
        let obj = object_at(t0.heap@, st.last() as int);
        if st.len() < 1 {
            r == Err::<(), Fault>(Fault::StackUnderflow) && same_thread(&t1, &t0)
        } else if obj is None {
            r == Err::<(), Fault>(Fault::NullPointer) && same_thread(&t1, &t0)
        } else if idx + ty.size() > obj->Some_0.fields.len() {
            r == Err::<(), Fault>(Fault::FieldOutOfRange) && same_thread(&t1, &t0)
        } else {
            let fs = obj->Some_0.fields;
            let pushed = if ty.size() == 1 {
                drop_n(st, 1).push(fs[idx as int])
            } else {
                drop_n(st, 1).push(fs[idx as int]).push(fs[idx + 1])
            };
            let counted = if ty.size() == 1 && ty.is_reference() {
                spec_inc_ref(t0.heap@, fs[idx as int])
            } else {
                Ok(t0.heap@)
            };
            match counted {
                Err(f) => r == Err::<(), Fault>(f) && same_thread(&t1, &t0),
                Ok(h) => r is Ok && t1.heap@ == h && t1.stackframe@ == with_stack(
                    t0.stackframe@,
                    pushed,
                ) && t1.pc_register == t0.pc_register && frames_view(t1.stack@)
                    == frames_view(t0.stack@) && t1.class_area@ == t0.class_area@
                    && t1.method_area@ == t0.method_area@,
            }
        }
    })
}

/// What `putfield` of the field words at `idx` of type `ty` does to a
/// thread (see `Thread::put_field_at`).
pub open spec fn put_field_effect(t0: Thread, t1: Thread, r: Result<(), Error>, idx: usize, ty: FieldTypeView) -> bool {
    &&& ({
        let st = t0.stackframe@.stack;
        let n = ty.size() as int;
        let ptr = st[st.len() - 1 - n];
        let obj = object_at(t0.heap@, ptr as int);
        if st.len() < n + 1 {
            (r matches Err(Error::Misc(f)) && f == Fault::StackUnderflow) && same_thread(&t1, &t0)
        } else if obj is None {
            (r matches Err(Error::Misc(f)) && f == Fault::NullPointer) && same_thread(&t1, &t0)
        } else if idx + n > obj->Some_0.fields.len() {
            (r matches Err(Error::Misc(f)) && f == Fault::FieldOutOfRange) && same_thread(&t1, &t0)
        } else {
            let o = obj->Some_0;
            let fs = if n == 1 {
                o.fields.update(idx as int, st.last())
            } else {
                o.fields.update(idx as int, st[st.len() - 2]).update(idx + 1, st.last())
            };
            let stored = with_object(t0.heap@, slot_of(t0.heap@, ptr as int), ObjectView { fields: fs, ..o });
            &&& !ty.is_reference() ==> r is Ok && t1.heap@ == stored
            &&& ty.is_reference() ==> match crate::heap::release_all(
                stored,
                t0.class_area@.classes,
                seq![o.fields[idx as int]],
            ) {
                Err(e) => r matches Err(er) && er@ == e,
                Ok(h2) => match spec_inc_ref(h2, st.last()) {
                    Err(f) => r matches Err(Error::Misc(g)) && g == f,
                    Ok(h3) => r is Ok && t1.heap@ == h3,
                },
            }
            &&& r is Ok ==> {
                &&& t1.stackframe@ == with_stack(t0.stackframe@, drop_n(st, n + 1))
                &&& t1.pc_register == t0.pc_register
                &&& frames_view(t1.stack@) == frames_view(t0.stack@)
                &&& t1.class_area@ == t0.class_area@
                &&& t1.method_area@ == t0.method_area@
            }
        }
    })
}

/// What `new` for the class at position `ci` does to a thread (see
/// `Thread::new_object_at`).
pub open spec fn new_object_effect(t0: Thread, t1: Thread, r: Result<(), Fault>, ci: usize) -> bool {
    &&& ({
        let c = t0.class_area@.classes[ci as int];
        let o = ObjectView { fields: c.initial_fields, native_fields: seq![], class: c.this };
        let ptr = ((t0.heap@.contents.len() + crate::data::HEAP_START) % 0x1_0000_0000) as u32;
        let h = HeapView {
            contents: t0.heap@.contents.push(Some(o)),
            refcounts: t0.heap@.refcounts.push(0),
            strings: t0.heap@.strings,
            class_objects: t0.heap@.class_objects,
        };
        &&& t1.stackframe@ == with_stack(t0.stackframe@, t0.stackframe@.stack.push(ptr))
        &&& t1.pc_register == t0.pc_register
        &&& frames_view(t1.stack@) == frames_view(t0.stack@)
        &&& t1.class_area@ == t0.class_area@
        &&& match spec_inc_ref(h, ptr) {
            Ok(h2) => r is Ok && t1.heap@ == h2,
            Err(f) => r == Err::<(), Fault>(f) && t1.heap@ == h,
        }
    })
}

/// What `newarray` of elements of type `ty` does to a thread (see
/// `Thread::new_array`).
pub open spec fn new_array_effect(t0: Thread, t1: Thread, r: Result<(), Fault>, ty: FieldTypeView, two: bool) -> bool {
    &&& t0.stackframe@.stack.len() == 0 ==> r == Err::<(), Fault>(Fault::StackUnderflow)
        && same_thread(&t1, &t0)
    &&& t0.stackframe@.stack.len() > 0 ==> {
        let st = t0.stackframe@.stack;
        let count = st.last() as nat;
        let elements = if two {
            NativeFieldView::Longs(Seq::new(count, |i: int| 0u64))
        } else {
            NativeFieldView::Words(Seq::new(count, |i: int| 0u32))
        };
        let o = ObjectView {
            fields: seq![],
            native_fields: seq![NativeFieldView::ArrayType(ty), elements],
            class: crate::object::array_name(),
        };
        let ptr = ((t0.heap@.contents.len() + crate::data::HEAP_START) % 0x1_0000_0000) as u32;
        let h = HeapView {
            contents: t0.heap@.contents.push(Some(o)),
            refcounts: t0.heap@.refcounts.push(0),
            strings: t0.heap@.strings,
            class_objects: t0.heap@.class_objects,
        };
        &&& t1.stackframe@ == with_stack(t0.stackframe@, drop_n(st, 1).push(ptr))
        &&& t1.pc_register == t0.pc_register
        &&& frames_view(t1.stack@) == frames_view(t0.stack@)
        &&& t1.class_area@ == t0.class_area@
        &&& match spec_inc_ref(h, ptr) {
            Ok(h2) => r is Ok && t1.heap@ == h2,
            Err(f) => r == Err::<(), Fault>(f) && t1.heap@ == h,
        }
    }
}

/// What `arraylength` does to a thread (see `Thread::array_length`).
pub open spec fn array_length_effect(t0: Thread, t1: Thread, r: Result<(), Fault>) -> bool {
    &&& ({
        let st = t0.stackframe@.stack;
        let obj = object_at(t0.heap@, st.last() as int);
        if st.len() < 1 {
            r == Err::<(), Fault>(Fault::StackUnderflow) && same_thread(&t1, &t0)
        } else if obj is None {
            r == Err::<(), Fault>(Fault::NullPointer) && same_thread(&t1, &t0)
        } else if !is_array1(obj->Some_0) {
            r == Err::<(), Fault>(Fault::WrongObjectKind) && same_thread(&t1, &t0)
        } else {
            r is Ok && t1.stackframe@ == with_stack(
                t0.stackframe@,
                drop_n(st, 1).push((words_of(obj->Some_0).len() as usize) as u32),
            ) && t1.heap@ == t0.heap@ && t1.pc_register == t0.pc_register
                && frames_view(t1.stack@) == frames_view(t0.stack@)
                && t1.class_area@ == t0.class_area@
                && t1.method_area@ == t0.method_area@
        }
    })
}

/// What an array load does to a thread (see `Thread::array_load`).
pub open spec fn array_load_effect(t0: Thread, t1: Thread, r: Result<(), Fault>, two: bool) -> bool {
    &&& ({
        let st = t0.stackframe@.stack;
        let index = word(st, 0);
        let obj = object_at(t0.heap@, word(st, 1) as int);
        if st.len() < 2 {
            r == Err::<(), Fault>(Fault::StackUnderflow) && same_thread(&t1, &t0)
        } else if obj is None {
            r == Err::<(), Fault>(Fault::NullPointer) && same_thread(&t1, &t0)
        } else if !(if two { is_array2(obj->Some_0) } else { is_array1(obj->Some_0) }) {
            r == Err::<(), Fault>(Fault::WrongObjectKind) && same_thread(&t1, &t0)
        } else if index >= (if two { longs_of(obj->Some_0).len() } else { words_of(obj->Some_0).len() }) {
            r == Err::<(), Fault>(Fault::IndexOutOfBounds) && same_thread(&t1, &t0)
        } else {
            let o = obj->Some_0;
            let pushed = if two {
                drop_n(st, 2).push(hi_word(longs_of(o)[index as int])).push(lo_word(longs_of(o)[index as int]))
            } else {
                drop_n(st, 2).push(words_of(o)[index as int])
            };
            let counted = if !two && holds_references(o) {
                spec_inc_ref(t0.heap@, words_of(o)[index as int])
            } else {
                Ok(t0.heap@)
            };
            match counted {
                Err(f) => r == Err::<(), Fault>(f) && same_thread(&t1, &t0),
                Ok(h) => r is Ok && t1.heap@ == h && t1.stackframe@ == with_stack(
                    t0.stackframe@,
                    pushed,
                ) && t1.pc_register == t0.pc_register && frames_view(t1.stack@)
                    == frames_view(t0.stack@) && t1.class_area@ == t0.class_area@
                    && t1.method_area@ == t0.method_area@,
            }
        }
    })
}

/// What an array store does to a thread (see `Thread::array_store`).
pub open spec fn array_store_effect(t0: Thread, t1: Thread, r: Result<(), Error>, two: bool) -> bool {
    &&& ({
        let st = t0.stackframe@.stack;
        let n: int = if two { 2 } else { 1 };
        let index = word(st, n);
        let ptr = word(st, n + 1);
        let obj = object_at(t0.heap@, ptr as int);
        if st.len() < n + 2 {
            (r matches Err(Error::Misc(f)) && f == Fault::StackUnderflow) && same_thread(&t1, &t0)
        } else if obj is None {
            (r matches Err(Error::Misc(f)) && f == Fault::NullPointer) && same_thread(&t1, &t0)
        } else if !(if two { is_array2(obj->Some_0) } else { is_array1(obj->Some_0) }) {
            (r matches Err(Error::Misc(f)) && f == Fault::WrongObjectKind) && same_thread(&t1, &t0)
        } else if index >= (if two { longs_of(obj->Some_0).len() } else { words_of(obj->Some_0).len() }) {
            (r matches Err(Error::Misc(f)) && f == Fault::IndexOutOfBounds) && same_thread(&t1, &t0)
        } else {
            let o = obj->Some_0;
            let elements = if two {
                NativeFieldView::Longs(longs_of(o).update(index as int, join_words(word(st, 1), word(st, 0))))
            } else {
                NativeFieldView::Words(words_of(o).update(index as int, word(st, 0)))
            };
            let stored = with_object(
                t0.heap@,
                slot_of(t0.heap@, ptr as int),
                ObjectView { native_fields: o.native_fields.update(1, elements), ..o },
            );
            &&& (two || !holds_references(o)) ==> r is Ok && t1.heap@ == stored
            &&& (!two && holds_references(o)) ==> match spec_inc_ref(stored, word(st, 0)) {
                Err(f) => r matches Err(Error::Misc(g)) && g == f,
                Ok(h2) => match crate::heap::release_all(h2, t0.class_area@.classes, seq![words_of(o)[index as int]]) {
                    Err(e) => r matches Err(er) && er@ == e,
                    Ok(h3) => r is Ok && t1.heap@ == h3,
                },
            }
            &&& r is Ok ==> {
                &&& t1.stackframe@ == with_stack(t0.stackframe@, drop_n(st, n + 2))
                &&& t1.pc_register == t0.pc_register
                &&& frames_view(t1.stack@) == frames_view(t0.stack@)
                &&& t1.class_area@ == t0.class_area@
                &&& t1.method_area@ == t0.method_area@
            }
        }
    })
}

/// What calling `method` of `class` with the top `arg_words` words of the
/// operand stack does to a thread (see `Thread::invoke_with_args`).
pub open spec fn call_effect(t0: Thread, t1: Thread, r: Result<(), Fault>, method: MethodView, class: ClassView, arg_words: usize) -> bool {
    &&& ({
        let st = t0.stackframe@.stack;
        if arg_words > st.len() {
            r == Err::<(), Fault>(Fault::StackUnderflow) && same_thread(&t1, &t0)
        } else if arg_words > method.max_locals as nat + 1 {
            r == Err::<(), Fault>(Fault::LocalOutOfRange) && same_thread(&t1, &t0)
        } else {
            let start = st.len() - arg_words;
            &&& r is Ok
            &&& frames_view(t1.stack@) == frames_view(t0.stack@).push(
                with_stack(t0.stackframe@, st.subrange(0, start).push(t0.pc_register as u32)),
            )
            &&& t1.stackframe@ == called_frame(method, class, st.subrange(start, st.len() as int))
            &&& t1.pc_register == 0
            &&& t1.heap@ == t0.heap@
            &&& t1.heap.wf() == t0.heap.wf()
            &&& t1.class_area@ == t0.class_area@
            &&& t1.class_area.wf() == t0.class_area.wf()
            &&& t1.method_area@ == t0.method_area@
        }
    })
}

/// What `invokevirtual` of `name` with `desc` does to a thread (see
/// `Thread::invoke_virtual`).
pub open spec fn invoke_virtual_effect(t0: Thread, t1: Thread, r: Result<(), Error>, name: Seq<char>, desc: MethodDescriptorView) -> bool {
    &&& t0.stackframe@.stack.len() < desc.parameter_size + 1 ==> (r matches Err(Error::Misc(f)) && f
        == Fault::StackUnderflow) && same_thread(&t1, &t0)
    &&& ({
        let st = t0.stackframe@.stack;
        let n = desc.parameter_size;
        st.len() >= n + 1 ==> match spec_resolve(
            t0.heap@,
            t0.class_area@.classes,
            t0.method_area@,
            st[st.len() - 1 - n],
            name,
            desc,
        ) {
            Err(e) => (r matches Err(er) && er@ == e) && same_thread(&t1, &t0),
            Ok((c, m)) => if n + 1 > m.max_locals as nat + 1 {
                (r matches Err(Error::Misc(f)) && f == Fault::LocalOutOfRange) && same_thread(&t1, &t0)
            } else {
                let start = st.len() - (n + 1);
                &&& r is Ok
                &&& frames_view(t1.stack@) == frames_view(t0.stack@).push(
                    with_stack(t0.stackframe@, st.subrange(0, start).push(t0.pc_register as u32)),
                )
                &&& t1.stackframe@ == called_frame(m, c, st.subrange(start, st.len() as int))
                &&& t1.pc_register == 0
                &&& t1.heap@ == t0.heap@
                &&& t1.class_area@ == t0.class_area@
                &&& t1.method_area@ == t0.method_area@
            },
        }
    })
}


/// Whether the outcome `r` fails, if it does, with a fault of the machine.
pub open spec fn misc_only<T>(r: Result<T, Error>) -> bool {
    r is Err ==> r->Err_0 is Misc
}

/// The outcome `r` without its value, its error read as a fault (any other
/// error as `Unsupported`; see `misc_only`).
pub open spec fn fault_of<T>(r: Result<T, Error>) -> Result<(), Fault> {
    match r {
        Ok(_) => Ok(()),
        Err(Error::Misc(f)) => Err(f),
        Err(_) => Err(Fault::Unsupported),
    }
}

/// The outcome `r` without its value.
pub open spec fn unit_of<T>(r: Result<T, Error>) -> Result<(), Error> {
    match r {
        Ok(_) => Ok(()),
        Err(e) => Err(e),
    }
}

/// What pushing the string object of `text` does to a thread (see
/// `Thread::push_string`).
pub open spec fn push_string_effect(t0: Thread, t1: Thread, r: Result<(), Fault>, text: Seq<char>) -> bool {
    let (h, p) = spec_allocate_str(t0.heap@, text);
    &&& t1.pc_register == t0.pc_register
    &&& frames_view(t1.stack@) == frames_view(t0.stack@)
    &&& t1.class_area@ == t0.class_area@
    &&& t1.method_area@ == t0.method_area@
    &&& match spec_inc_ref(h, p) {
        Ok(h2) => r is Ok && t1.heap@ == h2 && t1.stackframe@ == with_stack(
            t0.stackframe@,
            t0.stackframe@.stack.push(p),
        ),
        Err(f) => r == Err::<(), Fault>(f) && t1.heap@ == h && t1.stackframe@ == t0.stackframe@,
    }
}

/// What resolving the class named `class` and starting its initializer when
/// it has not run does to a thread, followed by `then` on the class's
/// position when the class is ready: the outcome is `Ok(done)` when the
/// initializer was called, a class resolution error when no class has that
/// name.
pub open spec fn after_ready<T>(
    t0: Thread,
    t1: Thread,
    r: Result<T, Error>,
    done: T,
    class: Seq<char>,
    then: spec_fn(Thread, Thread, usize) -> bool,
) -> bool {
    let ci = class_position(t0.class_area@.classes, class);
    if ci < 0 {
        (r matches Err(e) && e@ == ErrorView::ClassResolution(class)) && same_thread(&t1, &t0)
    } else if t0.class_area@.states[ci].initialized {
        then(t0, t1, ci as usize)
    } else {
        match lookup_entry(t0.method_area@, (t0.class_area@.classes[ci].this, clinit_name(), clinit_descriptor())) {
            Some(_) => r == Ok::<T, Error>(done) && initialize_effect(t0, t1, true, ci as usize),
            None => exists|tm: Thread| #[trigger] initialize_effect(t0, tm, false, ci as usize) && then(tm, t1, ci as usize),
        }
    }
}

/// What `invokestatic` of `class.name` with `desc` does to a thread (see
/// `Thread::invoke_static`).
pub open spec fn invoke_static_effect(
    t0: Thread,
    t1: Thread,
    r: Result<(), Error>,
    class: Seq<char>,
    name: Seq<char>,
    desc: MethodDescriptorView,
) -> bool {
    match lookup_entry(t0.method_area@, (class, name, desc)) {
        None => (r matches Err(Error::Misc(f)) && f == Fault::MethodNotFound) && same_thread(&t1, &t0),
        Some((c, m)) => after_ready(
            t0,
            t1,
            r,
            (),
            c.this,
            |a: Thread, b: Thread, at: usize|
                misc_only(r) && call_effect(a, b, fault_of(r), m, c, desc.parameter_size as usize),
        ),
    }
}

/// The class in which `invokespecial` of `class.name` looks the method up:
/// `class` itself for a constructor, else its superclass (`None` when no
/// class has that name).
pub open spec fn special_class(classes: Seq<ClassView>, class: Seq<char>, name: Seq<char>) -> Option<Seq<char>> {
    if name == init_name() {
        Some(class)
    } else {
        let p = class_position(classes, class);
        if p < 0 {
            None
        } else {
            Some(classes[p].super_class)
        }
    }
}

/// What `invokespecial` of `class.name` with `desc` does to a thread (see
/// `Thread::invoke_special`).
pub open spec fn invoke_special_effect(
    t0: Thread,
    t1: Thread,
    r: Result<(), Error>,
    class: Seq<char>,
    name: Seq<char>,
    desc: MethodDescriptorView,
) -> bool {
    match special_class(t0.class_area@.classes, class, name) {
        None => (r matches Err(e) && e@ == ErrorView::ClassResolution(class)) && same_thread(&t1, &t0),
        Some(cur) => match lookup_entry(t0.method_area@, (cur, name, desc)) {
            None => (r matches Err(Error::Misc(f)) && f == Fault::MethodNotFound) && same_thread(&t1, &t0),
            Some((c, m)) => if desc.parameter_size >= usize::MAX {
                (r matches Err(Error::Misc(f)) && f == Fault::StackUnderflow) && same_thread(&t1, &t0)
            } else {
                misc_only(r) && call_effect(t0, t1, fault_of(r), m, c, (desc.parameter_size + 1) as usize)
            },
        },
    }
}

/// What `checkcast` to `class` does to a thread: nothing when the reference
/// on top of the stack is null or the instance check says yes.
pub open spec fn checked_cast_effect(t0: Thread, t1: Thread, r: Result<Step, Error>, class: Seq<char>) -> bool {
    let st = t0.stackframe@.stack;
    &&& same_thread(&t1, &t0)
    &&& if st.len() == 0 {
        r matches Err(Error::Misc(f)) && f == Fault::StackUnderflow
    } else if st.last() == crate::data::NULL || (class_of(t0.heap@, st.last()) matches Some(k)
        && spec_isinstance(t0.class_area@.classes, k, class) == Ok::<bool, ErrorView>(true)) {
        r == Ok::<Step, Error>(Step::Done)
    } else {
        r matches Err(Error::Misc(f)) && f == Fault::FailedCast
    }
}

/// What an instruction that needs more than the running frame does to a
/// thread `t0`, leaving `t1` with the outcome `r` (see
/// `Thread::execute_machine`). Floating point is left to the host.
pub open spec fn machine_effect(t0: Thread, t1: Thread, r: Result<Step, Error>, i: InstructionView) -> bool {
    let done = r is Ok ==> r == Ok::<Step, Error>(Step::Done);
    let st = t0.stackframe@.stack;
    if is_float(i) {
        r == Ok::<Step, Error>(Step::Float) && same_thread(&t1, &t0)
    } else {
        match i {
            InstructionView::LoadString(s) => done && misc_only(r) && push_string_effect(t0, t1, fault_of(r), s),
            InstructionView::InvokeDynamic(index, name, desc) => crate::dynamic::invoke_dynamic_effect(
                t0,
                t1,
                r,
                index,
                name,
                desc,
            ),
            InstructionView::NewMultiArray(dims, ty) => done && misc_only(r)
                && crate::dynamic::new_multi_array_effect(t0, t1, fault_of(r), dims, ty),
            InstructionView::GetStatic(class, name, ty) => done && after_ready(
                t0,
                t1,
                r,
                Step::Done,
                class,
                |a: Thread, b: Thread, at: usize| misc_only(r) && get_static_effect(a, b, fault_of(r), at, name, ty),
            ),
            InstructionView::PutStatic(class, name, ty) => done && after_ready(
                t0,
                t1,
                r,
                Step::Done,
                class,
                |a: Thread, b: Thread, at: usize| put_static_effect(a, b, unit_of(r), at, name, ty),
            ),
            InstructionView::GetField(Some(idx), _, _, ty) => done && misc_only(r) && get_field_effect(
                t0,
                t1,
                fault_of(r),
                idx,
                ty,
            ),
            InstructionView::PutField(Some(idx), _, _, ty) => done && put_field_effect(t0, t1, unit_of(r), idx, ty),
            InstructionView::InvokeVirtual(_, name, desc) => done && invoke_virtual_effect(t0, t1, unit_of(r), name, desc),
            InstructionView::InvokeInterface(_, name, desc) => done && invoke_virtual_effect(
                t0,
                t1,
                unit_of(r),
                name,
                desc,
            ),
            InstructionView::InvokeSpecial(class, name, desc) => done && invoke_special_effect(
                t0,
                t1,
                unit_of(r),
                class,
                name,
                desc,
            ),
            InstructionView::InvokeStatic(class, name, desc) => done && invoke_static_effect(
                t0,
                t1,
                unit_of(r),
                class,
                name,
                desc,
            ),
            InstructionView::New(class) => done && after_ready(
                t0,
                t1,
                r,
                Step::Done,
                class,
                |a: Thread, b: Thread, at: usize| misc_only(r) && new_object_effect(a, b, fault_of(r), at),
            ),
            InstructionView::NewArray1(ty) => done && misc_only(r) && new_array_effect(t0, t1, fault_of(r), ty, false),
            InstructionView::NewArray2(ty) => done && misc_only(r) && new_array_effect(t0, t1, fault_of(r), ty, true),
            InstructionView::ArrayLength => done && misc_only(r) && array_length_effect(t0, t1, fault_of(r)),
            InstructionView::ArrayLoad1 => done && misc_only(r) && array_load_effect(t0, t1, fault_of(r), false),
            InstructionView::ArrayLoad2 => done && misc_only(r) && array_load_effect(t0, t1, fault_of(r), true),
            InstructionView::ArrayStore1 => done && array_store_effect(t0, t1, unit_of(r), false),
            InstructionView::ArrayStore2 => done && array_store_effect(t0, t1, unit_of(r), true),
            InstructionView::Return0 => done && return_void_effect(t0, t1, unit_of(r)),
            InstructionView::Return1 => done && misc_only(r) && return_one_effect(t0, t1, fault_of(r)),
            InstructionView::Return2 => done && misc_only(r) && return_two_effect(t0, t1, fault_of(r)),
            InstructionView::AThrow => done && misc_only(r) && if st.len() == 0 {
                fault_of(r) == Err::<(), Fault>(Fault::StackUnderflow) && same_thread(&t1, &t0)
            } else {
                match unwind(
                    t0.class_area@.classes,
                    class_of(t0.heap@, st.last()),
                    frames_view(t0.stack@),
                    with_stack(t0.stackframe@, st.drop_last()),
                    t0.pc_register,
                    st.last(),
                ) {
                    Ok((fs, f, pc)) => r is Ok && frames_view(t1.stack@) == fs && t1.stackframe@ == f && t1.pc_register
                        == pc && t1.heap@ == t0.heap@ && t1.class_area@ == t0.class_area@ && t1.method_area@
                        == t0.method_area@,
                    Err(e) => fault_of(r) == Err::<(), Fault>(e),
                }
            },
            InstructionView::CheckedCast(class) => checked_cast_effect(t0, t1, r, class),
            _ => (r matches Err(Error::Misc(f)) && f == Fault::Unsupported) && same_thread(&t1, &t0),
        }
    }
}

} // verus!
