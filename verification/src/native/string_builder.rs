//! The native methods of `java/lang/StringBuilder`: its text is its first
//! native value.
use vstd::prelude::*;

use crate::dynamic::string_at;
use crate::error::{Error, Fault};
use crate::heap::{object_at, slot_of, spec_allocate_str, with_object, HeapView};
use crate::native::{arg, void_returned, word_returned};
use crate::native::object::return_text;
use crate::native::string::text_of;
use crate::object::{native_fields_view, NativeField, NativeFieldView, ObjectView};
use crate::text::{char_from_u32, is_scalar};
use crate::thread::Thread;

verus! {

/// The heap with the object `ptr` given one more native value, `f`.
pub open spec fn with_native_pushed(h: HeapView, ptr: u32, f: NativeFieldView) -> Result<HeapView, Fault> {
    match object_at(h, ptr as int) {
        None => Err(Fault::NullPointer),
        Some(o) => Ok(
            with_object(h, slot_of(h, ptr as int), ObjectView { native_fields: o.native_fields.push(f), ..o }),
        ),
    }
}

/// `StringBuilder.<init>(String)`: the builder starts with the string's text.
pub fn builder_init(thread: &mut Thread) -> (r: Result<(), Error>)
    requires
        old(thread).wf(),
    ensures
        final(thread).wf(),
        old(thread).stackframe@.locals.len() < 2 ==> r == Err::<(), Error>(Error::Misc(Fault::LocalOutOfRange)),
        old(thread).stackframe@.locals.len() >= 2 ==> {
            let l = old(thread).stackframe@.locals;
            match string_at(old(thread).heap@, l[1]) {
                Err(f) => r == Err::<(), Error>(Error::Misc(f)),
                Ok(s) => match with_native_pushed(old(thread).heap@, l[0], NativeFieldView::Str(s)) {
                    Err(f) => r == Err::<(), Error>(Error::Misc(f)),
                    Ok(h) => void_returned(old(thread), h, final(thread), r),
                },
            }
        },
{
    let this = arg(thread, 0)?;
    let init = arg(thread, 1)?;
    let text = text_of(&thread.heap, init)?;
    let (i, mut o) = match thread.heap.take(this) {
        Ok(v) => v,
        Err(f) => {
            return Err(Error::Misc(f));
        },
    };
    let ghost before = o.native_fields@;
    let ghost tv = text@;
    o.native_fields.push(NativeField::Str(text));
    proof {
        assert(native_fields_view(o.native_fields@) =~= native_fields_view(before).push(NativeFieldView::Str(tv)));
    }
    thread.heap.restore(i, o);
    proof {
        let h = with_native_pushed(old(thread).heap@, this, NativeFieldView::Str(tv))->Ok_0;
        assert(thread.heap@.contents =~= h.contents);
    }
    thread.return_nothing()
}

/// The heap with the text of the builder `ptr` replaced by `s`.
pub open spec fn with_text(h: HeapView, ptr: u32, s: Seq<char>) -> HeapView {
    let o = object_at(h, ptr as int)->Some_0;
    with_object(h, slot_of(h, ptr as int), ObjectView { native_fields: o.native_fields.update(0, NativeFieldView::Str(s)), ..o })
}

/// `StringBuilder.setCharAt(int, char)`: the character at the index becomes
/// the one with the given code point. Refused: a word that is no code point,
/// an index past the end.
pub fn builder_set_char_at(thread: &mut Thread) -> (r: Result<(), Error>)
    requires
        old(thread).wf(),
    ensures
        final(thread).wf(),
        old(thread).stackframe@.locals.len() < 3 ==> r == Err::<(), Error>(Error::Misc(Fault::LocalOutOfRange)),
        old(thread).stackframe@.locals.len() >= 3 ==> {
            let l = old(thread).stackframe@.locals;
            if !is_scalar(l[2]) {
                r == Err::<(), Error>(Error::Misc(Fault::BadText))
            } else {
                match string_at(old(thread).heap@, l[0]) {
                    Err(f) => r == Err::<(), Error>(Error::Misc(f)),
                    Ok(s) => if l[1] < s.len() {
                        void_returned(
                            old(thread),
                            with_text(old(thread).heap@, l[0], s.update(l[1] as int, l[2] as char)),
                            final(thread),
                            r,
                        )
                    } else {
                        r == Err::<(), Error>(Error::Misc(Fault::IndexOutOfBounds))
                    },
                }
            }
        },
{
    let this = arg(thread, 0)?;
    let index = arg(thread, 1)?;
    let code = arg(thread, 2)?;
    let c = match char_from_u32(code) {
        Some(c) => c,
        None => {
            return Err(Error::Misc(Fault::BadText));
        },
    };
    let (i, mut o) = match thread.heap.take(this) {
        Ok(v) => v,
        Err(f) => {
            return Err(Error::Misc(f));
        },
    };
    let ghost ov = o@;
    if o.native_fields.len() == 0 {
        thread.heap.restore(i, o);
        return Err(Error::Misc(Fault::WrongObjectKind));
    }
    assert(ov.native_fields[0] == o.native_fields@[0]@);
    let mut text = match o.native_fields.remove(0) {
        NativeField::Str(t) => t,
        other => {
            o.native_fields.insert(0, other);
            thread.heap.restore(i, o);
            return Err(Error::Misc(Fault::WrongObjectKind));
        },
    };
    if index as usize >= text.len() {
        o.native_fields.insert(0, NativeField::Str(text));
        thread.heap.restore(i, o);
        return Err(Error::Misc(Fault::IndexOutOfBounds));
    }
    text.set(index as usize, c);
    let ghost tv = text@;
    o.native_fields.insert(0, NativeField::Str(text));
    proof {
        assert(native_fields_view(o.native_fields@) =~= ov.native_fields.update(0, NativeFieldView::Str(tv)));
    }
    thread.heap.restore(i, o);
    proof {
        let h = with_text(old(thread).heap@, this, tv);
        assert(thread.heap@.contents =~= h.contents);
    }
    thread.return_nothing()
}

/// `StringBuilder.toString`: the builder's text, as a string.
pub fn builder_to_string(thread: &mut Thread) -> (r: Result<(), Error>)
    requires
        old(thread).wf(),
    ensures
        final(thread).wf(),
        old(thread).stackframe@.locals.len() == 0 ==> r == Err::<(), Error>(Error::Misc(Fault::LocalOutOfRange)),
        old(thread).stackframe@.locals.len() > 0 ==> match string_at(
            old(thread).heap@,
            old(thread).stackframe@.locals[0],
        ) {
            Err(f) => r == Err::<(), Error>(Error::Misc(f)),
            Ok(s) => {
                let (h, p) = spec_allocate_str(old(thread).heap@, s);
                word_returned(old(thread), h, final(thread), p, r)
            },
        },
{
    let this = arg(thread, 0)?;
    let text = text_of(&thread.heap, this)?;
    return_text(thread, text)
}

/// A builder whose text was replaced reads back the new text.
pub proof fn law_text_written_then_read(h: HeapView, ptr: u32, s: Seq<char>)
    requires
        string_at(h, ptr) is Ok,
    ensures
        string_at(with_text(h, ptr, s), ptr) == Ok::<Seq<char>, Fault>(s),
{
}

} // verus!
