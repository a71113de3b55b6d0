//! The wrapper classes of the primitive types (`java/lang/Integer` and the
//! like): their value is their first field word, or first two for `long`
//! and `double`.
use vstd::prelude::*;

use crate::class::{FieldType, FieldTypeView};
use crate::data::class_position;
use crate::dynamic::{decimal, digit, push_decimal, push_signed, signed_decimal};
use crate::error::{Error, ErrorView, Fault};
use crate::heap::{object_at, slot_of, with_object, HeapView};
use crate::native::object::{bool_chars, bool_text, with_fields};
use crate::native::string::text_of;
use crate::native::{arg, long_returned, void_returned, word_returned};
use crate::object::{Object, ObjectView};
use crate::stacking::{join, join_words};
use crate::text::{char_from_u32, chars, is_scalar};
use crate::thread::Thread;
use crate::data::insert_entry;
use crate::native::{file_methods, mdesc, native_view, with_method_names, PUBLIC_NATIVE, PUBLIC_STATIC_NATIVE, TODO};
use crate::raw_class::{new_class_view, FieldView, RawClassView, RawMethodView};

verus! {

/// `byte`, held unsigned.
pub const BYTE: u32 = 0;
/// `short`.
pub const SHORT: u32 = 1;
/// `int`.
pub const INT: u32 = 2;
/// `long`.
pub const LONG: u32 = 3;
/// `float`.
pub const FLOAT: u32 = 4;
/// `double`.
pub const DOUBLE: u32 = 5;
/// `boolean`.
pub const BOOLEAN: u32 = 6;
/// `char`.
pub const CHAR: u32 = 7;

/// `valueOf(primitive)`: a new wrapper object.
pub const VALUE_OF: u32 = 0;
/// `<init>(primitive)`.
pub const INIT: u32 = 1;
/// `toString()`.
pub const TO_STRING: u32 = 2;
/// `intValue()` and the like.
pub const VALUE: u32 = 3;
/// `parseInt(String)` and the like.
pub const PARSE: u32 = 4;

/// The first native method number of the wrapper classes.
pub const PRIMITIVE_BASE: u32 = 64;

/// The native method number of the operation `op` of the wrapper of `kind`.
pub open spec fn primitive_id(kind: u32, op: u32) -> u32 {
    (PRIMITIVE_BASE + kind * 8 + op) as u32
}

/// The number of words of a value of `kind`.
pub open spec fn kind_size(kind: u32) -> nat {
    if kind == LONG || kind == DOUBLE {
        2
    } else {
        1
    }
}

/// The name of the wrapper class of `kind`.
pub open spec fn wrapper_name(kind: u32) -> Seq<char> {
    if kind == BYTE {
        "java/lang/Byte"@
    } else if kind == SHORT {
        "java/lang/Short"@
    } else if kind == INT {
        "java/lang/Integer"@
    } else if kind == LONG {
        "java/lang/Long"@
    } else if kind == FLOAT {
        "java/lang/Float"@
    } else if kind == DOUBLE {
        "java/lang/Double"@
    } else if kind == BOOLEAN {
        "java/lang/Boolean"@
    } else {
        "java/lang/Character"@
    }
}

/// The name of the wrapper class of `kind`.
pub fn wrapper_class_name(kind: u32) -> (r: Vec<char>)
    ensures
        r@ == wrapper_name(kind),
{
    if kind == BYTE {
        chars("java/lang/Byte")
    } else if kind == SHORT {
        chars("java/lang/Short")
    } else if kind == INT {
        chars("java/lang/Integer")
    } else if kind == LONG {
        chars("java/lang/Long")
    } else if kind == FLOAT {
        chars("java/lang/Float")
    } else if kind == DOUBLE {
        chars("java/lang/Double")
    } else if kind == BOOLEAN {
        chars("java/lang/Boolean")
    } else {
        chars("java/lang/Character")
    }
}

/// The text of a `char` wrapper: the character of the low 16 bits, or `?`
/// where they are no character.
pub open spec fn char_text(w: u32) -> Seq<char> {
    let u = (w % 0x10000) as u32;
    if is_scalar(u) {
        seq![u as char]
    } else {
        seq!['?']
    }
}

/// What `toString` writes for a wrapper of `kind` whose words are `w0`, `w1`:
/// bytes unsigned, the other integers signed, booleans as `true`/`false`.
pub open spec fn wrapper_text(kind: u32, w0: u32, w1: u32) -> Seq<char> {
    if kind == BYTE {
        decimal((w0 % 256) as nat)
    } else if kind == SHORT {
        signed_decimal(w0 as i16 as int)
    } else if kind == INT {
        signed_decimal(w0 as i32 as int)
    } else if kind == LONG {
        signed_decimal(join_words(w0, w1) as i64 as int)
    } else if kind == BOOLEAN {
        bool_text(w0)
    } else {
        char_text(w0)
    }
}

/// The text of a wrapper (see `wrapper_text`), for the kinds that are not
/// floating point.
pub fn wrapper_chars(kind: u32, w0: u32, w1: u32) -> (r: Vec<char>)
    requires
        kind != FLOAT && kind != DOUBLE,
    ensures
        r@ == wrapper_text(kind, w0, w1),
{
    let mut out: Vec<char> = Vec::new();
    if kind == BYTE {
        push_decimal(&mut out, (w0 % 256) as u64);
    } else if kind == SHORT {
        push_signed(&mut out, w0 as i16 as i64);
    } else if kind == INT {
        push_signed(&mut out, w0 as i32 as i64);
    } else if kind == LONG {
        push_signed(&mut out, join(w0, w1) as i64);
    } else if kind == BOOLEAN {
        out = bool_chars(w0);
    } else {
        let u = w0 % 0x10000;
        match char_from_u32(u) {
            Some(c) => out.push(c),
            None => out.push('?'),
        }
    }
    assert(out@ =~= wrapper_text(kind, w0, w1));
    out
}

/// `valueOf(primitive)` of the wrapper of `kind`: a new wrapper object
/// holding the argument words. Refused when the wrapper class is not loaded,
/// or has too few field words.
pub fn wrapper_value_of(thread: &mut Thread, kind: u32) -> (r: Result<(), Error>)
    requires
        old(thread).wf(),
        kind < 8,
    ensures
        final(thread).wf(),
        old(thread).stackframe@.locals.len() < 2 ==> r == Err::<(), Error>(Error::Misc(Fault::LocalOutOfRange)),
        old(thread).stackframe@.locals.len() >= 2 && class_position(old(thread).class_area@.classes, wrapper_name(kind))
            < 0 ==> (r matches Err(e) && e@ == ErrorView::ClassResolution(wrapper_name(kind))),
        old(thread).stackframe@.locals.len() >= 2 && class_position(old(thread).class_area@.classes, wrapper_name(kind))
            >= 0 ==> {
            let c = old(thread).class_area@.classes[class_position(old(thread).class_area@.classes, wrapper_name(kind))];
            let l = old(thread).stackframe@.locals;
            if c.initial_fields.len() < kind_size(kind) {
                r == Err::<(), Error>(Error::Misc(Fault::FieldOutOfRange))
            } else {
                let fields = if kind_size(kind) == 2 {
                    c.initial_fields.update(0, l[0]).update(1, l[1])
                } else {
                    c.initial_fields.update(0, l[0])
                };
                let o = ObjectView { fields, native_fields: seq![], class: c.this };
                let p = ((old(thread).heap@.contents.len() + crate::data::HEAP_START) % 0x1_0000_0000) as u32;
                let h = HeapView {
                    contents: old(thread).heap@.contents.push(Some(o)),
                    refcounts: old(thread).heap@.refcounts.push(0),
                    ..old(thread).heap@
                };
                word_returned(old(thread), h, final(thread), p, r)
            }
        },
{
    let upper = arg(thread, 0)?;
    let lower = arg(thread, 1)?;
    let name = wrapper_class_name(kind);
    let class = match thread.class_area.search(name.as_slice()) {
        Some(c) => c,
        None => {
            return Err(Error::class_resolution(&name));
        },
    };
    let mut obj = Object::from_class(&class);
    let two = kind == LONG || kind == DOUBLE;
    if obj.fields.len() < 1 || (two && obj.fields.len() < 2) {
        return Err(Error::Misc(Fault::FieldOutOfRange));
    }
    obj.fields.set(0, upper);
    if two {
        obj.fields.set(1, lower);
    }
    let p = thread.heap.allocate(obj);
    thread.return_word(p)
}

/// `<init>(primitive)` of the wrapper of `kind`: the object's first field
/// word (first two for `long` and `double`) becomes the argument's.
pub fn wrapper_init(thread: &mut Thread, kind: u32) -> (r: Result<(), Error>)
    requires
        old(thread).wf(),
    ensures
        final(thread).wf(),
        old(thread).stackframe@.locals.len() < 3 ==> r == Err::<(), Error>(Error::Misc(Fault::LocalOutOfRange)),
        old(thread).stackframe@.locals.len() >= 3 ==> {
            let l = old(thread).stackframe@.locals;
            match object_at(old(thread).heap@, l[0] as int) {
                None => r == Err::<(), Error>(Error::Misc(Fault::NullPointer)),
                Some(o) => if o.fields.len() < kind_size(kind) {
                    r == Err::<(), Error>(Error::Misc(Fault::FieldOutOfRange))
                } else {
                    let fields = if kind_size(kind) == 2 {
                        o.fields.update(0, l[1]).update(1, l[2])
                    } else {
                        o.fields.update(0, l[1])
                    };
                    void_returned(
                        old(thread),
                        with_object(old(thread).heap@, slot_of(old(thread).heap@, l[0] as int), ObjectView { fields, ..o }),
                        final(thread),
                        r,
                    )
                },
            }
        },
{
    let this = arg(thread, 0)?;
    let upper = arg(thread, 1)?;
    let lower = arg(thread, 2)?;
    let two = kind == LONG || kind == DOUBLE;
    let (i, mut o) = match thread.heap.take(this) {
        Ok(v) => v,
        Err(f) => {
            return Err(Error::Misc(f));
        },
    };
    if o.fields.len() < 1 || (two && o.fields.len() < 2) {
        thread.heap.restore(i, o);
        return Err(Error::Misc(Fault::FieldOutOfRange));
    }
    o.fields.set(0, upper);
    if two {
        o.fields.set(1, lower);
    }
    let ghost ov = o@;
    thread.heap.restore(i, o);
    proof {
        let h0 = old(thread).heap@;
        let ob = object_at(h0, this as int)->Some_0;
        let fields = if kind_size(kind) == 2 {
            ob.fields.update(0, upper).update(1, lower)
        } else {
            ob.fields.update(0, upper)
        };
        assert(ov == ObjectView { fields, ..ob });
        assert(thread.heap@.contents =~= with_object(h0, slot_of(h0, this as int), ov).contents);
    }
    thread.return_nothing()
}

/// The words of a wrapper object: its first field word and the second, or 0
/// when it has no second.
pub open spec fn wrapper_words(o: ObjectView) -> (u32, u32) {
    (o.fields[0], if o.fields.len() > 1 {
        o.fields[1]
    } else {
        0
    })
}

/// `toString` of the wrapper of `kind` (not `float` or `double`, which the
/// host writes): see `wrapper_text`.
pub fn wrapper_to_string(thread: &mut Thread, kind: u32) -> (r: Result<(), Error>)
    requires
        old(thread).wf(),
        kind != FLOAT && kind != DOUBLE,
    ensures
        final(thread).wf(),
        old(thread).stackframe@.locals.len() == 0 ==> r == Err::<(), Error>(Error::Misc(Fault::LocalOutOfRange)),
        old(thread).stackframe@.locals.len() > 0 ==> match object_at(
            old(thread).heap@,
            old(thread).stackframe@.locals[0] as int,
        ) {
            None => r == Err::<(), Error>(Error::Misc(Fault::NullPointer)),
            Some(o) => if o.fields.len() == 0 {
                r == Err::<(), Error>(Error::Misc(Fault::FieldOutOfRange))
            } else {
                let (w0, w1) = wrapper_words(o);
                let (h, p) = crate::heap::spec_allocate_str(old(thread).heap@, wrapper_text(kind, w0, w1));
                word_returned(old(thread), h, final(thread), p, r)
            },
        },
{
    let this = arg(thread, 0)?;
    let (w0, w1) = match thread.heap.get(this as usize) {
        None => {
            return Err(Error::Misc(Fault::NullPointer));
        },
        Some(o) => {
            if o.fields.len() == 0 {
                return Err(Error::Misc(Fault::FieldOutOfRange));
            }
            let w1 = if o.fields.len() > 1 {
                o.fields[1]
            } else {
                0
            };
            (o.fields[0], w1)
        },
    };
    let text = wrapper_chars(kind, w0, w1);
    crate::native::object::return_text(thread, text)
}

/// `intValue()` and the like, of the wrapper of `kind`: its first field
/// word, or its first two for `long` and `double`.
pub fn wrapper_value(thread: &mut Thread, kind: u32) -> (r: Result<(), Error>)
    requires
        old(thread).wf(),
    ensures
        final(thread).wf(),
        old(thread).stackframe@.locals.len() == 0 ==> r == Err::<(), Error>(Error::Misc(Fault::LocalOutOfRange)),
        old(thread).stackframe@.locals.len() > 0 ==> match object_at(
            old(thread).heap@,
            old(thread).stackframe@.locals[0] as int,
        ) {
            None => r == Err::<(), Error>(Error::Misc(Fault::NullPointer)),
            Some(o) => if o.fields.len() < kind_size(kind) {
                r == Err::<(), Error>(Error::Misc(Fault::FieldOutOfRange))
            } else if kind_size(kind) == 2 {
                long_returned(old(thread), old(thread).heap@, final(thread), join_words(o.fields[0], o.fields[1]), r)
            } else {
                word_returned(old(thread), old(thread).heap@, final(thread), o.fields[0], r)
            },
        },
{
    let this = arg(thread, 0)?;
    let two = kind == LONG || kind == DOUBLE;
    let w0 = match thread.heap.get_field(this, 0) {
        Ok(v) => v,
        Err(f) => {
            return Err(Error::Misc(f));
        },
    };
    if two {
        let w1 = match thread.heap.get_field(this, 1) {
            Ok(v) => v,
            Err(f) => {
                return Err(Error::Misc(f));
            },
        };
        thread.return_long(join(w0, w1))
    } else {
        thread.return_word(w0)
    }
}

/// The value of a string of decimal digits.
pub open spec fn digits_value(s: Seq<char>) -> nat
    decreases s.len(),
{
    if s.len() == 0 {
        0
    } else {
        digits_value(s.drop_last()) * 10 + digit_of(s.last())
    }
}

/// The value of a decimal digit character.
pub open spec fn digit_of(c: char) -> nat {
    ((c as u32) - ('0' as u32)) as nat
}

/// Whether `c` is a decimal digit.
pub open spec fn is_digit(c: char) -> bool {
    '0' <= c && c <= '9'
}

/// The number of sign characters that `parse` takes at the start of `s`:
/// one for `+`, or for `-` when `signed`.
pub open spec fn sign_len(s: Seq<char>, signed: bool) -> int {
    if s.len() > 0 && (s[0] == '+' || (signed && s[0] == '-')) {
        1
    } else {
        0
    }
}

/// The number that `s` writes in decimal, as Rust's `parse` reads it: an
/// optional `+` (or `-` when `signed`) and at least one digit, nothing else.
pub open spec fn parsed_number(s: Seq<char>, signed: bool) -> Option<int> {
    let body = s.subrange(sign_len(s, signed), s.len() as int);
    if body.len() > 0 && forall|i: int| 0 <= i < body.len() ==> is_digit(#[trigger] body[i]) {
        Some(
            if sign_len(s, signed) == 1 && s[0] == '-' {
                -digits_value(body)
            } else {
                digits_value(body) as int
            },
        )
    } else {
        None
    }
}

/// The least and greatest values of `kind`'s integers, as `parse` takes them.
pub open spec fn kind_range(kind: u32) -> (int, int) {
    if kind == BYTE {
        (0, 255)
    } else if kind == SHORT {
        (-0x8000, 0x7fff)
    } else if kind == INT {
        (-0x8000_0000, 0x7fff_ffff)
    } else {
        (-0x8000_0000_0000_0000, 0x7fff_ffff_ffff_ffff)
    }
}

/// Reads a decimal integer of `kind` (a byte, short, int or long) as `parse`
/// does: `None` for text that is no such number or whose number is out of
/// range.
pub fn parse_integer(s: &Vec<char>, kind: u32) -> (r: Option<i64>)
    requires
        kind == BYTE || kind == SHORT || kind == INT || kind == LONG,
    ensures
        match parsed_number(s@, kind != BYTE) {
            Some(v) => if kind_range(kind).0 <= v <= kind_range(kind).1 {
                r == Some(v as i64)
            } else {
                r is None
            },
            None => r is None,
        },
{
    let signed = kind != BYTE;
    let mut start: usize = 0;
    let mut neg = false;
    if s.len() > 0 && s[0] == '+' {
        start = 1;
    } else if signed && s.len() > 0 && s[0] == '-' {
        start = 1;
        neg = true;
    }
    let ghost body = s@.subrange(start as int, s@.len() as int);
    assert(start == sign_len(s@, signed));
    assert(neg == (start == 1 && s@[0] == '-'));
    if start >= s.len() {
        assert(body.len() == 0);
        assert(parsed_number(s@, signed) is None);
        return None;
    }
    let cap: u64 = 0x8000_0000_0000_0000;
    let mut v: u64 = 0;
    let mut i: usize = start;
    while i < s.len()
        invariant
            start <= i <= s@.len(),
            start == sign_len(s@, kind != BYTE),
            body == s@.subrange(start as int, s@.len() as int),
            v == digits_value(s@.subrange(start as int, i as int)),
            cap == 0x8000_0000_0000_0000u64,
            v <= cap,
            forall|k: int| start <= k < i ==> is_digit(#[trigger] s@[k]),
        decreases s@.len() - i,
    {
        let c = s[i];
        if !('0' <= c && c <= '9') {
            assert(body[i - start] == c);
            assert(!is_digit(body[i - start]));
            return None;
        }
        let d = (c as u32 - '0' as u32) as u64;
        proof {
            assert(s@.subrange(start as int, i + 1).drop_last() =~= s@.subrange(start as int, i as int));
            assert(s@.subrange(start as int, i + 1).last() == c);
            assert(d == digit_of(c));
            assert(digits_value(s@.subrange(start as int, i + 1)) == v * 10 + d);
        }
        if v > (cap - d) / 10 {
            proof {
                assert(v * 10 + d > cap) by (nonlinear_arith)
                    requires
                        v > (cap - d) / 10,
                        d <= 9,
                        cap == 0x8000_0000_0000_0000u64,
                ;
                assert(s@.subrange(start as int, s@.len() as int).subrange(0, i - start + 1) =~= s@.subrange(
                    start as int,
                    i + 1,
                ));
                lemma_digits_grow(s@.subrange(start as int, s@.len() as int), (i - start + 1) as int);
            }
            return None;
        }
        assert(v * 10 + d <= cap) by (nonlinear_arith)
            requires
                v <= (cap - d) / 10,
                d <= 9,
                cap == 0x8000_0000_0000_0000u64,
        ;
        v = v * 10 + d;
        i = i + 1;
    }
    proof {
        assert(s@.subrange(start as int, s@.len() as int) == body);
        assert forall|k: int| 0 <= k < body.len() implies is_digit(#[trigger] body[k]) by {
            assert(body[k] == s@[start + k]);
        }
    }
    let value: i128 = if neg {
        -(v as i128)
    } else {
        v as i128
    };
    let (lo, hi): (i128, i128) = if kind == BYTE {
        (0, 255)
    } else if kind == SHORT {
        (-0x8000, 0x7fff)
    } else if kind == INT {
        (-0x8000_0000, 0x7fff_ffff)
    } else {
        (-0x8000_0000_0000_0000, 0x7fff_ffff_ffff_ffff)
    };
    if value < lo || value > hi {
        return None;
    }
    Some(value as i64)
}

/// What `parse` gives for the wrapper of `kind`: the value's words as a
/// 64-bit number (integers sign-extended, bytes unsigned), a boolean from
/// exactly `true` or `false`, a character from exactly one character.
pub open spec fn parsed_value(kind: u32, s: Seq<char>) -> Option<u64> {
    if kind == BOOLEAN {
        if s == seq!['t', 'r', 'u', 'e'] {
            Some(1)
        } else if s == seq!['f', 'a', 'l', 's', 'e'] {
            Some(0)
        } else {
            None
        }
    } else if kind == CHAR {
        if s.len() == 1 {
            Some(s[0] as u32 as u64)
        } else {
            None
        }
    } else {
        match parsed_number(s, kind != BYTE) {
            Some(v) => if kind_range(kind).0 <= v <= kind_range(kind).1 {
                Some(v as i64 as u64)
            } else {
                None
            },
            None => None,
        }
    }
}

/// `parseInt(String)` and the like, of the wrapper of `kind` (not `float` or
/// `double`, which the host reads): see `parsed_value`; `long` comes back as
/// two words, the others as the low word. Text that does not parse is
/// refused.
pub fn wrapper_parse(thread: &mut Thread, kind: u32) -> (r: Result<(), Error>)
    requires
        old(thread).wf(),
        kind < 8,
        kind != FLOAT && kind != DOUBLE,
    ensures
        final(thread).wf(),
        old(thread).stackframe@.locals.len() == 0 ==> r == Err::<(), Error>(Error::Misc(Fault::LocalOutOfRange)),
        old(thread).stackframe@.locals.len() > 0 ==> match crate::dynamic::string_at(
            old(thread).heap@,
            old(thread).stackframe@.locals[0],
        ) {
            Err(f) => r == Err::<(), Error>(Error::Misc(f)),
            Ok(s) => match parsed_value(kind, s) {
                None => r == Err::<(), Error>(Error::Misc(Fault::BadText)),
                Some(v) => if kind == LONG {
                    long_returned(old(thread), old(thread).heap@, final(thread), v, r)
                } else {
                    word_returned(old(thread), old(thread).heap@, final(thread), (v % 0x1_0000_0000) as u32, r)
                },
            },
        },
{
    let this = arg(thread, 0)?;
    let s = text_of(&thread.heap, this)?;
    let v: u64 = if kind == BOOLEAN {
        let t = chars("true");
        let f = chars("false");
        proof {
            reveal_strlit("true");
            reveal_strlit("false");
            assert(t@ =~= seq!['t', 'r', 'u', 'e']);
            assert(f@ =~= seq!['f', 'a', 'l', 's', 'e']);
        }
        if crate::text::chars_eq(s.as_slice(), t.as_slice()) {
            1
        } else if crate::text::chars_eq(s.as_slice(), f.as_slice()) {
            0
        } else {
            return Err(Error::Misc(Fault::BadText));
        }
    } else if kind == CHAR {
        if s.len() != 1 {
            return Err(Error::Misc(Fault::BadText));
        }
        s[0] as u32 as u64
    } else {
        match parse_integer(&s, kind) {
            Some(n) => n as u64,
            None => {
                return Err(Error::Misc(Fault::BadText));
            },
        }
    };
    assert(parsed_value(kind, s@) == Some(v));
    if kind == LONG {
        thread.return_long(v)
    } else {
        #[verifier::truncate]
        let w = v as u32;
        assert(w == v % 0x1_0000_0000) by (bit_vector)
            requires
                w == v as u32,
        ;
        thread.return_word(w)
    }
}

/// The primitive type that the wrapper of `kind` holds (`char` for any
/// other kind).
pub open spec fn primitive_view(kind: u32) -> FieldTypeView {
    if kind == BYTE {
        FieldTypeView::Byte
    } else if kind == SHORT {
        FieldTypeView::Short
    } else if kind == INT {
        FieldTypeView::Int
    } else if kind == LONG {
        FieldTypeView::Long
    } else if kind == FLOAT {
        FieldTypeView::Float
    } else if kind == DOUBLE {
        FieldTypeView::Double
    } else if kind == BOOLEAN {
        FieldTypeView::Boolean
    } else {
        FieldTypeView::Char
    }
}

/// The name of the method giving the wrapped value of `kind` (`intValue`
/// and the like; `charValue` for any other kind).
pub open spec fn value_method(kind: u32) -> Seq<char> {
    if kind == BYTE {
        "byteValue"@
    } else if kind == SHORT {
        "shortValue"@
    } else if kind == INT {
        "intValue"@
    } else if kind == LONG {
        "longValue"@
    } else if kind == FLOAT {
        "floatValue"@
    } else if kind == DOUBLE {
        "doubleValue"@
    } else if kind == BOOLEAN {
        "booleanValue"@
    } else {
        "charValue"@
    }
}

/// The name of the method parsing a value of `kind` (`parseInt` and the
/// like; `parseChar` for any other kind).
pub open spec fn parse_method(kind: u32) -> Seq<char> {
    if kind == BYTE {
        "parseByte"@
    } else if kind == SHORT {
        "parseShort"@
    } else if kind == INT {
        "parseInt"@
    } else if kind == LONG {
        "parseLong"@
    } else if kind == FLOAT {
        "parseFloat"@
    } else if kind == DOUBLE {
        "parseDouble"@
    } else if kind == BOOLEAN {
        "parseBoolean"@
    } else {
        "parseChar"@
    }
}

/// The primitive type that the wrapper of `kind` holds (see
/// `primitive_view`).
pub fn primitive_type(kind: u32) -> (r: FieldType)
    ensures
        r@ == primitive_view(kind),
{
    if kind == BYTE {
        FieldType::Byte
    } else if kind == SHORT {
        FieldType::Short
    } else if kind == INT {
        FieldType::Int
    } else if kind == LONG {
        FieldType::Long
    } else if kind == FLOAT {
        FieldType::Float
    } else if kind == DOUBLE {
        FieldType::Double
    } else if kind == BOOLEAN {
        FieldType::Boolean
    } else {
        FieldType::Char
    }
}

/// The name of the method that gives the wrapped value (`intValue` and the
/// like) and of the one that parses (`parseInt` and the like).
fn method_names(kind: u32) -> (r: (&'static str, &'static str))
    ensures
        r.0@ == value_method(kind),
        r.1@ == parse_method(kind),
{
    if kind == BYTE {
        ("byteValue", "parseByte")
    } else if kind == SHORT {
        ("shortValue", "parseShort")
    } else if kind == INT {
        ("intValue", "parseInt")
    } else if kind == LONG {
        ("longValue", "parseLong")
    } else if kind == FLOAT {
        ("floatValue", "parseFloat")
    } else if kind == DOUBLE {
        ("doubleValue", "parseDouble")
    } else if kind == BOOLEAN {
        ("booleanValue", "parseBoolean")
    } else {
        ("charValue", "parseChar")
    }
}

/// The native method number of the operation `op` of the wrapper of `kind`.
pub fn wrapper_id(kind: u32, op: u32) -> (r: u32)
    requires
        kind < 8,
        op < 8,
    ensures
        r == primitive_id(kind, op),
{
    PRIMITIVE_BASE + kind * 8 + op
}

/// The type `java/lang/String`.
pub open spec fn string_view() -> FieldTypeView {
    FieldTypeView::Object("java/lang/String"@)
}

/// The field `value` of the wrapper of `kind`.
pub open spec fn wrapper_value_field(kind: u32) -> FieldView {
    FieldView {
        access_flags: PUBLIC_NATIVE,
        name: "value"@,
        descriptor: primitive_view(kind),
        constant_value: None,
        signature: None,
        attributes: seq![],
    }
}

/// The methods of the wrapper of `kind`, in the order they are filed:
/// `valueOf`, `<init>`, `toString`, the value and the parse, each run by
/// its own native method.
pub open spec fn wrapper_methods(kind: u32) -> Seq<RawMethodView> {
    let p = primitive_view(kind);
    seq![
        native_view(
            PUBLIC_STATIC_NATIVE,
            "valueOf"@,
            mdesc(seq![p], Some(FieldTypeView::Object(wrapper_name(kind)))),
            primitive_id(kind, VALUE_OF),
        ),
        native_view(PUBLIC_NATIVE, "<init>"@, mdesc(seq![p], None), primitive_id(kind, INIT)),
        native_view(PUBLIC_NATIVE, "toString"@, mdesc(seq![], Some(string_view())), primitive_id(kind, TO_STRING)),
        native_view(PUBLIC_NATIVE, value_method(kind), mdesc(seq![], Some(p)), primitive_id(kind, VALUE)),
        native_view(
            PUBLIC_STATIC_NATIVE,
            parse_method(kind),
            mdesc(seq![string_view()], Some(p)),
            primitive_id(kind, PARSE),
        ),
    ]
}

/// The wrapper class of `kind`: a subclass of `java/lang/Object` with the
/// one field `value`, listing its methods.
pub open spec fn wrapper_class(kind: u32) -> RawClassView {
    with_method_names(
        RawClassView {
            fields: seq![(wrapper_value_field(kind), 0usize)],
            field_size: primitive_view(kind).size(),
            ..new_class_view(PUBLIC_NATIVE, wrapper_name(kind), "java/lang/Object"@)
        },
        wrapper_methods(kind),
    )
}

/// The `toString` of the arrays of a primitive type: declared, not provided.
pub open spec fn array_to_string_todo() -> RawMethodView {
    native_view(PUBLIC_STATIC_NATIVE, "toString"@, mdesc(seq![], Some(string_view())), TODO)
}

/// Files the wrapper class of `kind` and its methods (see `wrapper_class`
/// and `wrapper_methods`). Gives the `toString` of the arrays of `kind`,
/// which is declared but not provided.
pub fn make_primitive_class(
    kind: u32,
    method_area: &mut crate::data::WorkingMethodArea,
    class_area: &mut crate::data::WorkingClassArea,
    Ghost(start): Ghost<Seq<(Seq<char>, crate::raw_class::RawClassView)>>,
) -> (r: crate::raw_class::RawMethod)
    requires
        kind < 8,
        crate::native::natives_filed(old(method_area)@, old(class_area)@, start),
    ensures
        crate::native::natives_filed(final(method_area)@, final(class_area)@, start),
        crate::native::keys_kept(old(class_area)@, final(class_area)@),
        final(method_area)@ == file_methods(old(method_area)@, wrapper_name(kind), wrapper_methods(kind)),
        final(class_area)@ == insert_entry(old(class_area)@, wrapper_name(kind), wrapper_class(kind)),
        r@ == array_to_string_todo(),
{
    let name = wrapper_class_name(kind);
    let prim = primitive_type(kind);
    let size = prim.get_size();
    let mut class = crate::raw_class::RawClass::new(
        crate::class::AccessFlags(PUBLIC_NATIVE),
        crate::text::copy_chars(&name),
        chars("java/lang/Object"),
    );
    let ghost c0 = class@;
    class.fields.push((crate::native::library_field(PUBLIC_NATIVE, "value", prim.copy()), 0));
    class.field_size = size;
    proof {
        assert(class@.fields =~= seq![(wrapper_value_field(kind), 0usize)]);
        assert(class@ == (RawClassView {
            fields: seq![(wrapper_value_field(kind), 0usize)],
            field_size: primitive_view(kind).size(),
            ..new_class_view(PUBLIC_NATIVE, wrapper_name(kind), "java/lang/Object"@)
        }));
    }
    let own_type = FieldType::Object(crate::text::copy_chars(&name));
    let (value_name, parse_name) = method_names(kind);
    let one = vec![prim.copy()];
    assert(crate::class::field_types_view(one@) =~= seq![primitive_view(kind)]);
    let one_b = vec![prim.copy()];
    assert(crate::class::field_types_view(one_b@) =~= seq![primitive_view(kind)]);
    let text = vec![crate::native::string_type()];
    assert(crate::class::field_types_view(text@) =~= seq![string_view()]);
    let mut ms: Vec<crate::raw_class::RawMethod> = Vec::new();
    crate::native::add_method(
        &mut ms,
        crate::native::native_method(
            PUBLIC_STATIC_NATIVE,
            "valueOf",
            crate::native::descriptor(one, Some(own_type.copy())),
            wrapper_id(kind, VALUE_OF),
        ),
    );
    crate::native::add_method(
        &mut ms,
        crate::native::native_method(PUBLIC_NATIVE, "<init>", crate::native::descriptor(one_b, None), wrapper_id(kind, INIT)),
    );
    crate::native::add_method(
        &mut ms,
        crate::native::native_method(
            PUBLIC_NATIVE,
            "toString",
            crate::native::no_args(Some(crate::native::string_type())),
            wrapper_id(kind, TO_STRING),
        ),
    );
    crate::native::add_method(
        &mut ms,
        crate::native::native_method(PUBLIC_NATIVE, value_name, crate::native::no_args(Some(prim.copy())), wrapper_id(kind, VALUE)),
    );
    crate::native::add_method(
        &mut ms,
        crate::native::native_method(
            PUBLIC_STATIC_NATIVE,
            parse_name,
            crate::native::descriptor(text, Some(prim)),
            wrapper_id(kind, PARSE),
        ),
    );
    proof {
        reveal_with_fuel(crate::class_loader::sum_sizes, 2);
        assert(crate::raw_class::raw_methods_view(ms@) =~= wrapper_methods(kind));
    }
    crate::native::file_with_methods(class, ms, method_area, class_area, Ghost(start));
    let r = crate::native::native_method(
        PUBLIC_STATIC_NATIVE,
        "toString",
        crate::native::no_args(Some(crate::native::string_type())),
        TODO,
    );
    proof {
        assert(r@.descriptor =~~= mdesc(seq![], Some(string_view())));
    }
    r
}

/// The method area after filing the wrappers of the kinds below `k`.
pub open spec fn wrappers_filed(
    area: Seq<(crate::data::MethodKey, (Seq<char>, RawMethodView))>,
    k: nat,
) -> Seq<(crate::data::MethodKey, (Seq<char>, RawMethodView))>
    decreases k,
{
    if k == 0 {
        area
    } else {
        file_methods(wrappers_filed(area, (k - 1) as nat), wrapper_name((k - 1) as u32), wrapper_methods((k - 1) as u32))
    }
}

/// The class area after filing the wrappers of the kinds below `k`.
pub open spec fn wrapper_classes_filed(
    area: Seq<(Seq<char>, RawClassView)>,
    k: nat,
) -> Seq<(Seq<char>, RawClassView)>
    decreases k,
{
    if k == 0 {
        area
    } else {
        insert_entry(
            wrapper_classes_filed(area, (k - 1) as nat),
            wrapper_name((k - 1) as u32),
            wrapper_class((k - 1) as u32),
        )
    }
}

/// Files the wrapper classes of the eight primitive types in turn (see
/// `make_primitive_class`), and adds to `array_methods` the `toString` of
/// the arrays of each.
pub fn make_primitives(
    array_methods: &mut Vec<crate::raw_class::RawMethod>,
    method_area: &mut crate::data::WorkingMethodArea,
    class_area: &mut crate::data::WorkingClassArea,
    Ghost(start): Ghost<Seq<(Seq<char>, crate::raw_class::RawClassView)>>,
)
    requires
        crate::native::all_native(old(array_methods)@),
        crate::native::natives_filed(old(method_area)@, old(class_area)@, start),
    ensures
        crate::native::all_native(final(array_methods)@),
        crate::native::natives_filed(final(method_area)@, final(class_area)@, start),
        crate::native::keys_kept(old(class_area)@, final(class_area)@),
        final(method_area)@ == wrappers_filed(old(method_area)@, 8),
        final(class_area)@ == wrapper_classes_filed(old(class_area)@, 8),
        crate::raw_class::raw_methods_view(final(array_methods)@) == crate::raw_class::raw_methods_view(
            old(array_methods)@,
        ) + Seq::new(8, |i: int| array_to_string_todo()),
{
    let ghost a0 = crate::raw_class::raw_methods_view(array_methods@);
    let mut kind: u32 = 0;
    while kind < 8
        invariant
            kind <= 8,
            crate::native::all_native(array_methods@),
            crate::native::natives_filed(method_area@, class_area@, start),
            crate::native::keys_kept(old(class_area)@, class_area@),
            method_area@ == wrappers_filed(old(method_area)@, kind as nat),
            class_area@ == wrapper_classes_filed(old(class_area)@, kind as nat),
            crate::raw_class::raw_methods_view(array_methods@) == a0 + Seq::new(
                kind as nat,
                |i: int| array_to_string_todo(),
            ),
        decreases 8 - kind,
    {
        let ghost before = array_methods@;
        let ghost ca0 = class_area@;
        let m = make_primitive_class(kind, method_area, class_area, Ghost(start));
        proof {
            assert forall|k: Seq<char>| crate::data::lookup_entry(old(class_area)@, k) is Some implies
                #[trigger] crate::data::lookup_entry(class_area@, k) is Some by {
                assert(crate::data::lookup_entry(ca0, k) is Some);
            }
        }
        crate::native::add_method(array_methods, m);
        proof {
            assert(crate::raw_class::raw_methods_view(array_methods@) =~= crate::raw_class::raw_methods_view(
                before,
            ).push(array_to_string_todo()));
            assert(a0 + Seq::new((kind + 1) as nat, |i: int| array_to_string_todo()) =~= (a0 + Seq::new(
                kind as nat,
                |i: int| array_to_string_todo(),
            )).push(array_to_string_todo()));
        }
        kind = kind + 1;
    }
}

/// A number past the cap stays past it as digits are added.
proof fn lemma_digits_grow(s: Seq<char>, k: int)
    requires
        0 < k <= s.len(),
        digits_value(s.subrange(0, k)) > 0x8000_0000_0000_0000,
    ensures
        digits_value(s) > 0x8000_0000_0000_0000,
    decreases s.len() - k,
{
    if k < s.len() {
        assert(s.drop_last().subrange(0, k) =~= s.subrange(0, k));
        lemma_digits_grow(s.drop_last(), k);
    } else {
        assert(s.subrange(0, k) =~= s);
    }
}

/// The decimal digits of a number are digits, at least one, and read back
/// as the number.
pub proof fn lemma_decimal_digits(n: nat)
    ensures
        decimal(n).len() > 0,
        forall|i: int| 0 <= i < decimal(n).len() ==> is_digit(#[trigger] decimal(n)[i]),
        digits_value(decimal(n)) == n,
    decreases n,
{
    let d = decimal(n);
    if n < 10 {
        assert(d.drop_last() =~= Seq::<char>::empty());
        assert(digit_of(digit(n as int)) == n);
        assert(digits_value(d) == digits_value(d.drop_last()) * 10 + digit_of(d.last()));
        assert(digits_value(d) == n);
    } else {
        lemma_decimal_digits(n / 10);
        let prefix = decimal(n / 10);
        assert(d == prefix.push(digit((n % 10) as int)));
        assert(d.drop_last() =~= prefix);
        assert(digit_of(digit((n % 10) as int)) == n % 10);
        vstd::arithmetic::div_mod::lemma_fundamental_div_mod(n as int, 10);
        assert(digits_value(prefix) == n / 10);
        assert(d.last() == digit((n % 10) as int));
        assert(digits_value(d) == digits_value(prefix) * 10 + digit_of(d.last()));
        assert(digits_value(d) == n);
        assert forall|i: int| 0 <= i < d.len() implies is_digit(#[trigger] d[i]) by {
            if i < prefix.len() {
                assert(d[i] == prefix[i]);
            }
        }
    }
}

/// `parse` reads back the text of `signed_decimal`.
pub proof fn lemma_parse_signed(v: int)
    ensures
        parsed_number(signed_decimal(v), true) == Some(v),
{
    if v < 0 {
        let s = signed_decimal(v);
        let m = (-v) as nat;
        lemma_decimal_digits(m);
        assert(s.subrange(1, s.len() as int) =~= decimal(m));
        assert(s[0] == '-');
    } else {
        lemma_decimal_digits(v as nat);
        let s = decimal(v as nat);
        assert(is_digit(s[0]));
        assert(s.subrange(0, s.len() as int) =~= s);
    }
}

/// Parsing the text that `toString` writes for an `int`, `short` or `long`
/// wrapper gives its value back.
pub proof fn law_parse_to_string(kind: u32, w0: u32, w1: u32)
    requires
        kind == SHORT || kind == INT || kind == LONG,
    ensures
        parsed_value(kind, wrapper_text(kind, w0, w1)) == Some(
            if kind == SHORT {
                w0 as i16 as i64 as u64
            } else if kind == INT {
                w0 as i32 as i64 as u64
            } else {
                join_words(w0, w1)
            },
        ),
{
    if kind == SHORT {
        lemma_parse_signed(w0 as i16 as int);
    } else if kind == INT {
        lemma_parse_signed(w0 as i32 as int);
    } else {
        lemma_parse_signed(join_words(w0, w1) as i64 as int);
        let j = join_words(w0, w1);
        assert(j as i64 as u64 == j) by (bit_vector);
    }
}

} // verus!
