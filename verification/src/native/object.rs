//! Native methods of `Object`, `Enum`, `Class`, `Random`, `System` and
//! `PrintStream`.
use vstd::prelude::*;

use crate::data::{class_position, insert_entry, lookup_entry, NULL};
use crate::dynamic::{push_signed, signed_decimal};
use crate::error::{Error, ErrorView, Fault};
use crate::heap::{object_at, slot_of, spec_allocate_str, spec_inc_ref, with_object, HeapView};
use crate::native::{arg, has_caller, returned_frames, void_returned, word_returned};
use crate::object::{has_generator, random_next_int, NativeField, NativeFieldView, Object, ObjectView};
use crate::stacking::join_words;
use crate::text::{char_from_u32, chars, is_scalar};
use crate::thread::Thread;
use crate::class::ClassView;

verus! {

/// The character of a hexadecimal digit, upper case.
pub open spec fn hex_digit(d: nat) -> char {
    if d < 10 {
        crate::dynamic::digit(d as int)
    } else if d == 10 {
        'A'
    } else if d == 11 {
        'B'
    } else if d == 12 {
        'C'
    } else if d == 13 {
        'D'
    } else if d == 14 {
        'E'
    } else {
        'F'
    }
}

/// The last `n` hexadecimal digits of `v`, most significant first.
pub open spec fn hex_text(v: nat, n: nat) -> Seq<char>
    decreases n,
{
    if n == 0 {
        seq![]
    } else {
        hex_text(v / 16, (n - 1) as nat).push(hex_digit(v % 16))
    }
}

/// The character of the hexadecimal digit `d`.
fn hex_char(d: u32) -> (c: char)
    requires
        d < 16,
    ensures
        c == hex_digit(d as nat),
{
    if d == 0 { '0' } else if d == 1 { '1' } else if d == 2 { '2' } else if d == 3 { '3' }
    else if d == 4 { '4' } else if d == 5 { '5' } else if d == 6 { '6' } else if d == 7 { '7' }
    else if d == 8 { '8' } else if d == 9 { '9' } else if d == 10 { 'A' } else if d == 11 { 'B' }
    else if d == 12 { 'C' } else if d == 13 { 'D' } else if d == 14 { 'E' } else { 'F' }
}

/// Appends the last `n` hexadecimal digits of `v`.
pub fn push_hex(out: &mut Vec<char>, v: u32, n: u32)
    ensures
        final(out)@ == old(out)@ + hex_text(v as nat, n as nat),
    decreases n,
{
    if n > 0 {
        push_hex(out, v / 16, n - 1);
        out.push(hex_char(v % 16));
    }
    assert(out@ =~= old(out)@ + hex_text(v as nat, n as nat));
}

/// `Object.toString`: the reference in eight hexadecimal digits.
pub fn object_to_string(thread: &mut Thread) -> (r: Result<(), Error>)
    requires
        old(thread).wf(),
    ensures
        final(thread).wf(),
        old(thread).stackframe@.locals.len() == 0 ==> r == Err::<(), Error>(Error::Misc(Fault::LocalOutOfRange)),
        old(thread).stackframe@.locals.len() > 0 ==> {
            let (h, p) = spec_allocate_str(
                old(thread).heap@,
                hex_text(old(thread).stackframe@.locals[0] as nat, 8),
            );
            word_returned(old(thread), h, final(thread), p, r)
        },
{
    let this = arg(thread, 0)?;
    let mut text: Vec<char> = Vec::new();
    push_hex(&mut text, this, 8);
    assert(text@ =~= hex_text(this as nat, 8));
    let p = thread.heap.allocate_str(text);
    thread.return_word(p)
}

/// A native method that does nothing and returns (`Object.<init>` and the
/// like).
pub fn noop(thread: &mut Thread) -> (r: Result<(), Error>)
    requires
        old(thread).wf(),
    ensures
        final(thread).wf(),
        void_returned(old(thread), old(thread).heap@, final(thread), r),
{
    thread.return_nothing()
}

/// Returns the string object for `text`.
pub fn return_text(thread: &mut Thread, text: Vec<char>) -> (r: Result<(), Error>)
    requires
        old(thread).wf(),
    ensures
        final(thread).wf(),
        ({
            let (h, p) = spec_allocate_str(old(thread).heap@, text@);
            word_returned(old(thread), h, final(thread), p, r)
        }),
{
    let p = thread.heap.allocate_str(text);
    thread.return_word(p)
}

/// The heap with the field words of the object `ptr` replaced by `fields`,
/// or the fault for a reference to no object.
pub open spec fn with_fields(h: HeapView, ptr: u32, fields: Seq<u32>) -> Result<HeapView, Fault> {
    match object_at(h, ptr as int) {
        None => Err(Fault::NullPointer),
        Some(o) => Ok(with_object(h, slot_of(h, ptr as int), ObjectView { fields, ..o })),
    }
}

/// `Enum.<init>(String, int)`: the enum object's fields become the name and
/// the number.
pub fn enum_init(thread: &mut Thread) -> (r: Result<(), Error>)
    requires
        old(thread).wf(),
    ensures
        final(thread).wf(),
        old(thread).stackframe@.locals.len() < 3 ==> r == Err::<(), Error>(Error::Misc(Fault::LocalOutOfRange)),
        old(thread).stackframe@.locals.len() >= 3 ==> {
            let l = old(thread).stackframe@.locals;
            match with_fields(old(thread).heap@, l[0], seq![l[1], l[2]]) {
                Err(f) => r == Err::<(), Error>(Error::Misc(f)) && *final(thread) == *old(thread),
                Ok(h) => void_returned(old(thread), h, final(thread), r),
            }
        },
{
    let this = arg(thread, 0)?;
    let name = arg(thread, 1)?;
    let id = arg(thread, 2)?;
    let (i, mut o) = match thread.heap.take(this) {
        Ok(v) => v,
        Err(f) => {
            return Err(Error::Misc(f));
        },
    };
    o.fields = vec![name, id];
    assert(o@.fields =~= seq![name, id]);
    thread.heap.restore(i, o);
    proof {
        assert(thread.heap@.contents =~= with_fields(old(thread).heap@, this, seq![name, id])->Ok_0.contents);
    }
    thread.return_nothing()
}

/// `Enum.toString` and `Enum.name`: the first field word, the name.
pub fn enum_name(thread: &mut Thread) -> (r: Result<(), Error>)
    requires
        old(thread).wf(),
    ensures
        final(thread).wf(),
        old(thread).stackframe@.locals.len() == 0 ==> r == Err::<(), Error>(Error::Misc(Fault::LocalOutOfRange)),
        old(thread).stackframe@.locals.len() > 0 ==> match object_at(
            old(thread).heap@,
            old(thread).stackframe@.locals[0] as int,
        ) {
            None => r == Err::<(), Error>(Error::Misc(Fault::NullPointer)),
            Some(o) => if o.fields.len() > 0 {
                word_returned(old(thread), old(thread).heap@, final(thread), o.fields[0], r)
            } else {
                r == Err::<(), Error>(Error::Misc(Fault::FieldOutOfRange))
            },
        },
{
    let this = arg(thread, 0)?;
    let name = match thread.heap.get_field(this, 0) {
        Ok(v) => v,
        Err(f) => {
            return Err(Error::Misc(f));
        },
    };
    thread.return_word(name)
}

/// `Random.nextInt(int)`: a number from 0 up to the bound, drawn by the
/// object's generator. A bound of 0 is refused.
pub fn next_int(thread: &mut Thread) -> (r: Result<(), Error>)
    requires
        old(thread).wf(),
    ensures
        final(thread).wf(),
        old(thread).stackframe@.locals.len() < 2 ==> r == Err::<(), Error>(Error::Misc(Fault::LocalOutOfRange)),
        old(thread).stackframe@.locals.len() >= 2 ==> {
            let l = old(thread).stackframe@.locals;
            match object_at(old(thread).heap@, l[0] as int) {
                None => r == Err::<(), Error>(Error::Misc(Fault::NullPointer)),
                Some(o) => if l[1] == 0 {
                    r == Err::<(), Error>(Error::Misc(Fault::IndexOutOfBounds))
                } else if !has_generator(o) {
                    r == Err::<(), Error>(Error::Misc(Fault::WrongObjectKind))
                } else {
                    exists|v: u32| v < l[1] && word_returned(old(thread), old(thread).heap@, final(thread), v, r)
                },
            }
        },
{
    let this = arg(thread, 0)?;
    let bound = arg(thread, 1)?;
    let (i, mut o) = match thread.heap.take(this) {
        Ok(v) => v,
        Err(f) => {
            return Err(Error::Misc(f));
        },
    };
    let drawn = random_next_int(&mut o, bound);
    thread.heap.restore(i, o);
    assert(thread.heap@.contents =~= old(thread).heap@.contents);
    assert(thread.heap@ == old(thread).heap@);
    match drawn {
        Ok(v) => {
            let r = thread.return_word(v);
            assert(word_returned(old(thread), old(thread).heap@, thread, v, r));
            r
        },
        Err(f) => Err(Error::Misc(f)),
    }
}

/// Gives `line` to be printed, and returns.
fn print_line(thread: &mut Thread, line: Vec<char>) -> (r: Result<Option<Vec<char>>, Error>)
    requires
        old(thread).wf(),
    ensures
        final(thread).wf(),
        void_returned(old(thread), old(thread).heap@, final(thread), match r {
            Ok(_) => Ok::<(), Error>(()),
            Err(e) => Err(e),
        }),
        r matches Ok(x) ==> x matches Some(l) && l@ == line@,
{
    match thread.return_nothing() {
        Ok(()) => Ok(Some(line)),
        Err(e) => Err(e),
    }
}

/// The outcome of a `println` that prints `line`: on success the method has
/// returned and `line` is given to print.
pub open spec fn printed(old: &Thread, new: &Thread, line: Seq<char>, r: Result<Option<Vec<char>>, Error>) -> bool {
    &&& void_returned(old, old.heap@, new, match r {
        Ok(_) => Ok::<(), Error>(()),
        Err(e) => Err(e),
    })
    &&& r matches Ok(x) ==> x matches Some(l) && l@ == line
}

/// `PrintStream.println(char)`: the character with that code point. A word
/// that is no code point is refused.
pub fn println_char(thread: &mut Thread) -> (r: Result<Option<Vec<char>>, Error>)
    requires
        old(thread).wf(),
    ensures
        final(thread).wf(),
        old(thread).stackframe@.locals.len() < 2 ==> r == Err::<Option<Vec<char>>, Error>(
            Error::Misc(Fault::LocalOutOfRange),
        ),
        old(thread).stackframe@.locals.len() >= 2 ==> {
            let c = old(thread).stackframe@.locals[1];
            if is_scalar(c) {
                printed(old(thread), final(thread), seq![c as char], r)
            } else {
                r == Err::<Option<Vec<char>>, Error>(Error::Misc(Fault::BadText))
            }
        },
{
    let c = arg(thread, 1)?;
    match char_from_u32(c) {
        Some(ch) => {
            let line = vec![ch];
            assert(line@ =~= seq![c as char]);
            print_line(thread, line)
        },
        None => Err(Error::Misc(Fault::BadText)),
    }
}

/// The text of a boolean: `true` for any word but 0.
pub open spec fn bool_text(b: u32) -> Seq<char> {
    if b != 0 {
        seq!['t', 'r', 'u', 'e']
    } else {
        seq!['f', 'a', 'l', 's', 'e']
    }
}

/// The text of a boolean word.
pub fn bool_chars(b: u32) -> (r: Vec<char>)
    ensures
        r@ == bool_text(b),
{
    let r = if b != 0 {
        vec!['t', 'r', 'u', 'e']
    } else {
        vec!['f', 'a', 'l', 's', 'e']
    };
    assert(r@ =~= bool_text(b));
    r
}

/// `PrintStream.println(boolean)`.
pub fn println_bool(thread: &mut Thread) -> (r: Result<Option<Vec<char>>, Error>)
    requires
        old(thread).wf(),
    ensures
        final(thread).wf(),
        old(thread).stackframe@.locals.len() < 2 ==> r == Err::<Option<Vec<char>>, Error>(
            Error::Misc(Fault::LocalOutOfRange),
        ),
        old(thread).stackframe@.locals.len() >= 2 ==> printed(
            old(thread),
            final(thread),
            bool_text(old(thread).stackframe@.locals[1]),
            r,
        ),
{
    let b = arg(thread, 1)?;
    print_line(thread, bool_chars(b))
}

/// `PrintStream.println(int)`: the word as a signed decimal.
pub fn println_int(thread: &mut Thread) -> (r: Result<Option<Vec<char>>, Error>)
    requires
        old(thread).wf(),
    ensures
        final(thread).wf(),
        old(thread).stackframe@.locals.len() < 2 ==> r == Err::<Option<Vec<char>>, Error>(
            Error::Misc(Fault::LocalOutOfRange),
        ),
        old(thread).stackframe@.locals.len() >= 2 ==> printed(
            old(thread),
            final(thread),
            signed_decimal(old(thread).stackframe@.locals[1] as i32 as int),
            r,
        ),
{
    let w = arg(thread, 1)?;
    let mut line: Vec<char> = Vec::new();
    push_signed(&mut line, w as i32 as i64);
    assert(line@ =~= signed_decimal(w as i32 as int));
    print_line(thread, line)
}

/// `PrintStream.println(long)`: the two words, high first, as a signed
/// decimal.
pub fn println_long(thread: &mut Thread) -> (r: Result<Option<Vec<char>>, Error>)
    requires
        old(thread).wf(),
    ensures
        final(thread).wf(),
        old(thread).stackframe@.locals.len() < 3 ==> r == Err::<Option<Vec<char>>, Error>(
            Error::Misc(Fault::LocalOutOfRange),
        ),
        old(thread).stackframe@.locals.len() >= 3 ==> printed(
            old(thread),
            final(thread),
            signed_decimal(
                join_words(old(thread).stackframe@.locals[1], old(thread).stackframe@.locals[2]) as i64 as int,
            ),
            r,
        ),
{
    let hi = arg(thread, 1)?;
    let lo = arg(thread, 2)?;
    let v = crate::stacking::join(hi, lo);
    let mut line: Vec<char> = Vec::new();
    push_signed(&mut line, v as i64);
    assert(line@ =~= signed_decimal(v as i64 as int));
    print_line(thread, line)
}

/// `PrintStream.println()`: an empty line.
pub fn println_empty(thread: &mut Thread) -> (r: Result<Option<Vec<char>>, Error>)
    requires
        old(thread).wf(),
    ensures
        final(thread).wf(),
        printed(old(thread), final(thread), seq![], r),
{
    let line: Vec<char> = Vec::new();
    assert(line@ =~= Seq::<char>::empty());
    print_line(thread, line)
}

/// `System.<clinit>`: makes a `PrintStream` object, counted once, and keeps
/// it as `System.out`, the first static word of `System`. Refused when
/// either class is not loaded, or when `System` has no static word.
pub fn system_clinit(thread: &mut Thread) -> (r: Result<(), Error>)
    requires
        old(thread).wf(),
    ensures
        final(thread).wf(),
        class_position(old(thread).class_area@.classes, "java/lang/System"@) < 0 ==> (r matches Err(e) && e@
            == ErrorView::ClassResolution("java/lang/System"@)),
        class_position(old(thread).class_area@.classes, "java/lang/System"@) >= 0 && class_position(
            old(thread).class_area@.classes,
            "java/io/PrintStream"@,
        ) < 0 ==> (r matches Err(e) && e@ == ErrorView::ClassResolution("java/io/PrintStream"@)),
        ({
            let cs = old(thread).class_area@.classes;
            let si = class_position(cs, "java/lang/System"@);
            let pi = class_position(cs, "java/io/PrintStream"@);
            let o = ObjectView { fields: cs[pi].initial_fields, native_fields: seq![], class: cs[pi].this };
            let p = ((old(thread).heap@.contents.len() + crate::data::HEAP_START) % 0x1_0000_0000) as u32;
            let h1 = HeapView {
                contents: old(thread).heap@.contents.push(Some(o)),
                refcounts: old(thread).heap@.refcounts.push(0),
                ..old(thread).heap@
            };
            si >= 0 && pi >= 0 ==> if old(thread).class_area@.states[si].static_data.len() == 0 {
                r == Err::<(), Error>(Error::Misc(Fault::FieldOutOfRange))
            } else {
                match spec_inc_ref(h1, p) {
                    Err(f) => r == Err::<(), Error>(Error::Misc(f)),
                    Ok(h2) => (if has_caller(old(thread)) {
                        r is Ok && returned_frames(old(thread), final(thread), seq![]) && final(thread).heap@ == h2
                    } else {
                        r is Err
                    }) && (r is Ok ==> final(thread).method_area@ == old(thread).method_area@) && (r is Ok ==> final(thread).class_area@.classes
                        == cs && final(thread).class_area@.states == old(thread).class_area@.states.update(
                        si,
                        crate::data::ClassStateView {
                            static_data: old(thread).class_area@.states[si].static_data.update(0, p),
                            ..old(thread).class_area@.states[si]
                        },
                    )),
                }
            }
        }),
{
    let system = chars("java/lang/System");
    let si = match thread.class_area.position(system.as_slice()) {
        Some(i) => i,
        None => {
            return Err(Error::class_resolution(&system));
        },
    };
    let stream = chars("java/io/PrintStream");
    let class = match thread.class_area.search(stream.as_slice()) {
        Some(c) => c,
        None => {
            return Err(Error::class_resolution(&stream));
        },
    };
    proof {
        thread.class_area.lemma_wf();
    }
    let out = thread.heap.allocate(Object::from_class(&class));
    match thread.class_area.set_static_word(si, 0, out) {
        Ok(()) => {},
        Err(f) => {
            return Err(Error::Misc(f));
        },
    }
    match thread.heap.inc_ref(out) {
        Ok(()) => {},
        Err(f) => {
            return Err(Error::Misc(f));
        },
    }
    thread.return_nothing()
}

/// A native `toString` that gives a fixed text (the exceptions' names).
pub fn fixed_text(thread: &mut Thread, text: &str) -> (r: Result<(), Error>)
    requires
        old(thread).wf(),
    ensures
        final(thread).wf(),
        ({
            let (h, p) = spec_allocate_str(old(thread).heap@, text@);
            word_returned(old(thread), h, final(thread), p, r)
        }),
{
    return_text(thread, chars(text))
}

/// The name of the class that a `java/lang/Class` object stands for.
pub open spec fn class_name_of(h: HeapView, ptr: u32) -> Result<Seq<char>, Fault> {
    match object_at(h, ptr as int) {
        None => Err(Fault::NullPointer),
        Some(o) => if o.native_fields.len() > 0 && o.native_fields[0] is Class {
            Ok(o.native_fields[0]->Class_0)
        } else {
            Err(Fault::WrongObjectKind)
        },
    }
}

/// `Class.getName`: the name of the class, as a string.
pub fn class_get_name(thread: &mut Thread) -> (r: Result<(), Error>)
    requires
        old(thread).wf(),
    ensures
        final(thread).wf(),
        old(thread).stackframe@.locals.len() == 0 ==> r == Err::<(), Error>(Error::Misc(Fault::LocalOutOfRange)),
        old(thread).stackframe@.locals.len() > 0 ==> match class_name_of(
            old(thread).heap@,
            old(thread).stackframe@.locals[0],
        ) {
            Err(f) => r == Err::<(), Error>(Error::Misc(f)),
            Ok(n) => {
                let (h, p) = spec_allocate_str(old(thread).heap@, n);
                word_returned(old(thread), h, final(thread), p, r)
            },
        },
{
    let this = arg(thread, 0)?;
    let name = match thread.heap.get(this as usize) {
        None => {
            return Err(Error::Misc(Fault::NullPointer));
        },
        Some(o) => {
            if o.native_fields.len() == 0 {
                return Err(Error::Misc(Fault::WrongObjectKind));
            }
            assert(o@.native_fields[0] == o.native_fields@[0]@);
            match &o.native_fields[0] {
                NativeField::Class(n) => crate::text::copy_chars(n),
                _ => {
                    return Err(Error::Misc(Fault::WrongObjectKind));
                },
            }
        },
    };
    return_text(thread, name)
}

/// The heap after asking for the `java/lang/Class` object of the class
/// named `name`, and that object: the one kept for the class while it is
/// live; else, when `java/lang/Class` is loaded, a new one standing for the
/// class, put on the heap uncounted and kept; else null.
pub open spec fn class_object_outcome(h0: HeapView, classes: Seq<ClassView>, name: Seq<char>) -> (HeapView, u32) {
    let kept = lookup_entry(h0.class_objects, name);
    let k = class_position(classes, "java/lang/Class"@);
    if kept is Some && object_at(h0, kept->0 as int) is Some {
        (h0, kept->0)
    } else if k < 0 {
        (h0, NULL)
    } else {
        let c = classes[k];
        let made = ObjectView { fields: c.initial_fields, native_fields: seq![NativeFieldView::Class(name)], class: c.this };
        let (h1, p) = crate::dynamic::heap_with(h0, made);
        (HeapView { class_objects: insert_entry(h1.class_objects, name, p), ..h1 }, p)
    }
}

/// Asking again for the `java/lang/Class` object of a class gives the same
/// object, and changes nothing (while the heap's references do not wrap
/// round).
pub proof fn law_class_object_kept(h0: HeapView, classes: Seq<ClassView>, name: Seq<char>)
    requires
        h0.contents.len() + crate::data::HEAP_START < 0x1_0000_0000,
    ensures
        ({
            let (h1, p) = class_object_outcome(h0, classes, name);
            p != NULL ==> class_object_outcome(h1, classes, name) == (h1, p)
        }),
{
    let (h1, p) = class_object_outcome(h0, classes, name);
    let kept = lookup_entry(h0.class_objects, name);
    if !(kept is Some && object_at(h0, kept->0 as int) is Some) && class_position(classes, "java/lang/Class"@) >= 0 {
        let hw = crate::dynamic::heap_with(h0, ObjectView {
            fields: classes[class_position(classes, "java/lang/Class"@)].initial_fields,
            native_fields: seq![NativeFieldView::Class(name)],
            class: classes[class_position(classes, "java/lang/Class"@)].this,
        });
        crate::data::lemma_insert_lookup(hw.0.class_objects, name, hw.1, name);
        assert(p as int == h0.contents.len() + crate::data::HEAP_START);
        assert(slot_of(h1, p as int) == h0.contents.len());
        assert(object_at(h1, p as int) is Some);
    }
}

/// `Object.getClass`: the `java/lang/Class` object standing for the
/// object's class. The first call for a class makes it and keeps it; later
/// calls hand back the one kept while it is live. Null when
/// `java/lang/Class` is not loaded.
pub fn object_get_class(thread: &mut Thread) -> (r: Result<(), Error>)
    requires
        old(thread).wf(),
    ensures
        final(thread).wf(),
        old(thread).stackframe@.locals.len() == 0 ==> r == Err::<(), Error>(Error::Misc(Fault::LocalOutOfRange)),
        old(thread).stackframe@.locals.len() > 0 ==> match object_at(
            old(thread).heap@,
            old(thread).stackframe@.locals[0] as int,
        ) {
            None => r == Err::<(), Error>(Error::Misc(Fault::NullPointer)),
            Some(o) => {
                let (h, p) = class_object_outcome(old(thread).heap@, old(thread).class_area@.classes, o.class);
                word_returned(old(thread), h, final(thread), p, r)
            },
        },
{
    let this = arg(thread, 0)?;
    let class_of = match thread.heap.get(this as usize) {
        None => {
            return Err(Error::Misc(Fault::NullPointer));
        },
        Some(o) => crate::text::copy_chars(&o.class),
    };
    match thread.heap.class_object(class_of.as_slice()) {
        Some(p) => {
            if thread.heap.get(p as usize).is_some() {
                return thread.return_word(p);
            }
        },
        None => {},
    }
    let class_class = chars("java/lang/Class");
    let cls = match thread.class_area.search(class_class.as_slice()) {
        Some(c) => c,
        None => {
            return thread.return_word(NULL);
        },
    };
    let mut obj = Object::from_class(&cls);
    let ghost before = obj.native_fields@;
    let name = crate::text::copy_chars(&class_of);
    obj.native_fields.push(NativeField::Class(class_of));
    proof {
        assert(crate::object::native_fields_view(obj.native_fields@) =~= crate::object::native_fields_view(
            before,
        ).push(obj.native_fields@.last()@));
    }
    let ghost ov = obj@;
    let p = thread.heap.allocate(obj);
    let ghost h1 = thread.heap@;
    thread.heap.remember_class_object(name, p);
    let r = thread.return_word(p);
    proof {
        if r is Ok {
            assert(h1.contents.last() == Some(ov));
        }
    }
    r
}

} // verus!
