//! The native methods on arrays: `Arrays.toString`, `Arrays.deepToString`
//! and `System.arraycopy`.
use vstd::prelude::*;

use crate::class::FieldTypeView;
use crate::data::NULL;
use crate::dynamic::{push_signed, signed_decimal};
use crate::error::{Error, Fault};
use crate::heap::{longs_of, object_at, slot_of, spec_allocate_str, with_object, words_of, Heap, HeapView};
use crate::native::object::{bool_chars, bool_text, hex_text, push_hex, return_text};
use crate::native::{arg, void_returned, word_returned};
use crate::object::{is_array1, is_array2, native_fields_view, NativeField, NativeFieldView, ObjectView};
use crate::text::char_from_u32;
use crate::thread::Thread;

verus! {

/// The text that Rust's `Debug` writes for a character: the character
/// between single quotes, escaped where it needs to be.
pub uninterp spec fn char_debug_text(c: char) -> Seq<char>;

/// Formats `c` with `Debug` (`format!("{:?}", c)`), as a list of characters.
#[verifier::external_body]
fn char_debug(c: char) -> (r: Vec<char>)
    ensures
        r@ == char_debug_text(c),
{
    format!("{:?}", c).chars().collect()
}

/// The items separated by `", "`.
pub open spec fn comma_list(items: Seq<Seq<char>>) -> Seq<char>
    decreases items.len(),
{
    if items.len() == 0 {
        seq![]
    } else if items.len() == 1 {
        items[0]
    } else {
        comma_list(items.drop_last()) + seq![',', ' '] + items.last()
    }
}

/// The items separated by `", "`, between square brackets.
pub open spec fn bracketed(items: Seq<Seq<char>>) -> Seq<char> {
    seq!['['] + comma_list(items) + seq![']']
}

/// The text of an `int` element.
pub open spec fn int_item(w: u32) -> Seq<char> {
    signed_decimal(w as i32 as int)
}

/// The text of a `long` element.
pub open spec fn long_item(w: u64) -> Seq<char> {
    signed_decimal(w as i64 as int)
}

/// The text of a reference element: `null`, or `&` and the reference in
/// eight hexadecimal digits.
pub open spec fn ref_item(w: u32) -> Seq<char> {
    if w == NULL {
        seq!['n', 'u', 'l', 'l']
    } else {
        seq!['&'] + hex_text(w as nat, 8)
    }
}

/// The text of a `boolean` element.
pub open spec fn bool_item(w: u32) -> Seq<char> {
    bool_text(w)
}

/// The text of a `char` element: the character, or the character 0 for a
/// word that is no code point, as `Debug` writes it.
pub open spec fn char_item(w: u32) -> Seq<char> {
    if crate::text::is_scalar(w) {
        char_debug_text(w as char)
    } else {
        char_debug_text('\0')
    }
}

/// How the elements of an array of one-word elements are written.
pub enum ItemStyle {
    Int,
    Reference,
    Boolean,
    Char,
}

/// The text of a one-word element in the given style.
pub open spec fn item_text(style: ItemStyle, w: u32) -> Seq<char> {
    match style {
        ItemStyle::Int => int_item(w),
        ItemStyle::Reference => ref_item(w),
        ItemStyle::Boolean => bool_item(w),
        ItemStyle::Char => char_item(w),
    }
}

/// Appends the text of a one-word element.
fn push_item(out: &mut Vec<char>, style: &ItemStyle, w: u32)
    ensures
        final(out)@ == old(out)@ + item_text(*style, w),
{
    match style {
        ItemStyle::Int => {
            push_signed(out, w as i32 as i64);
        },
        ItemStyle::Reference => {
            if w == NULL {
                out.push('n');
                out.push('u');
                out.push('l');
                out.push('l');
            } else {
                out.push('&');
                let ghost mid = out@;
                push_hex(out, w, 8);
            }
        },
        ItemStyle::Boolean => {
            let t = bool_chars(w);
            push_all(out, &t);
        },
        ItemStyle::Char => {
            let c = match char_from_u32(w) {
                Some(c) => c,
                None => '\0',
            };
            let t = char_debug(c);
            push_all(out, &t);
        },
    }
    assert(out@ =~= old(out)@ + item_text(*style, w));
}

/// Appends all of `t`.
fn push_all(out: &mut Vec<char>, t: &Vec<char>)
    ensures
        final(out)@ == old(out)@ + t@,
{
    let mut k: usize = 0;
    while k < t.len()
        invariant
            k <= t@.len(),
            out@ == old(out)@ + t@.subrange(0, k as int),
        decreases t@.len() - k,
    {
        out.push(t[k]);
        k = k + 1;
        assert(out@ =~= old(out)@ + t@.subrange(0, k as int));
    }
    assert(t@.subrange(0, t@.len() as int) =~= t@);
}

/// The list of one-word elements in the given style: `[a, b, c]`.
pub fn words_text(ws: &Vec<u32>, style: &ItemStyle) -> (r: Vec<char>)
    ensures
        r@ == bracketed(ws@.map_values(|w: u32| item_text(*style, w))),
{
    let ghost items = ws@.map_values(|w: u32| item_text(*style, w));
    let mut out: Vec<char> = vec!['['];
    let mut i: usize = 0;
    while i < ws.len()
        invariant
            items == ws@.map_values(|w: u32| item_text(*style, w)),
            i <= ws@.len(),
            out@ == seq!['['] + comma_list(items.subrange(0, i as int)),
        decreases ws@.len() - i,
    {
        proof {
            assert(items.subrange(0, i + 1).drop_last() =~= items.subrange(0, i as int));
        }
        let ghost before = out@;
        if i > 0 {
            out.push(',');
            out.push(' ');
        }
        push_item(&mut out, style, ws[i]);
        proof {
            if i == 0 {
                assert(out@ =~= seq!['['] + comma_list(items.subrange(0, 1)));
            } else {
                assert(out@ =~= seq!['['] + comma_list(items.subrange(0, i + 1)));
            }
        }
        i = i + 1;
    }
    assert(items.subrange(0, items.len() as int) =~= items);
    out.push(']');
    assert(out@ =~= bracketed(items));
    out
}

/// The list of `long` elements: `[a, b, c]`.
pub fn longs_text(ws: &Vec<u64>) -> (r: Vec<char>)
    ensures
        r@ == bracketed(ws@.map_values(|w: u64| long_item(w))),
{
    let ghost items = ws@.map_values(|w: u64| long_item(w));
    let mut out: Vec<char> = vec!['['];
    let mut i: usize = 0;
    while i < ws.len()
        invariant
            items == ws@.map_values(|w: u64| long_item(w)),
            i <= ws@.len(),
            out@ == seq!['['] + comma_list(items.subrange(0, i as int)),
        decreases ws@.len() - i,
    {
        proof {
            assert(items.subrange(0, i + 1).drop_last() =~= items.subrange(0, i as int));
        }
        if i > 0 {
            out.push(',');
            out.push(' ');
        }
        push_signed(&mut out, ws[i] as i64);
        proof {
            if i == 0 {
                assert(out@ =~= seq!['['] + comma_list(items.subrange(0, 1)));
            } else {
                assert(out@ =~= seq!['['] + comma_list(items.subrange(0, i + 1)));
            }
        }
        i = i + 1;
    }
    assert(items.subrange(0, items.len() as int) =~= items);
    out.push(']');
    assert(out@ =~= bracketed(items));
    out
}

/// The element type of the array `ptr`: its first native value.
pub open spec fn array_type_of(h: HeapView, ptr: u32) -> Result<FieldTypeView, Fault> {
    match object_at(h, ptr as int) {
        None => Err(Fault::NullPointer),
        Some(o) => if o.native_fields.len() > 0 && o.native_fields[0] is ArrayType {
            Ok(o.native_fields[0]->ArrayType_0)
        } else {
            Err(Fault::WrongObjectKind)
        },
    }
}

/// What `Arrays.toString` writes for the array `ptr`: `long` elements and
/// `int` elements as numbers, those of other one-word types as references.
/// Arrays of `float` and `double` are left to no one: refused.
pub open spec fn array_text(h: HeapView, ptr: u32) -> Result<Seq<char>, Fault> {
    match array_type_of(h, ptr) {
        Err(f) => Err(f),
        Ok(t) => {
            let o = object_at(h, ptr as int)->Some_0;
            if t.size() == 2 {
                if !is_array2(o) {
                    Err(Fault::WrongObjectKind)
                } else if t is Long {
                    Ok(bracketed(longs_of(o).map_values(|w: u64| long_item(w))))
                } else {
                    Err(Fault::Unsupported)
                }
            } else if !is_array1(o) {
                Err(Fault::WrongObjectKind)
            } else if t is Int {
                Ok(bracketed(words_of(o).map_values(|w: u32| item_text(ItemStyle::Int, w))))
            } else if t is Float {
                Err(Fault::Unsupported)
            } else {
                Ok(bracketed(words_of(o).map_values(|w: u32| item_text(ItemStyle::Reference, w))))
            }
        },
    }
}

/// The text of the array `ptr` (see `array_text`).
pub fn array_text_of(heap: &Heap, ptr: u32) -> (r: Result<Vec<char>, Fault>)
    ensures
        match array_text(heap@, ptr) {
            Ok(s) => r matches Ok(v) && v@ == s,
            Err(f) => r == Err::<Vec<char>, Fault>(f),
        },
{
    let o = match heap.get(ptr as usize) {
        Some(o) => o,
        None => {
            return Err(Fault::NullPointer);
        },
    };
    if o.native_fields.len() == 0 {
        return Err(Fault::WrongObjectKind);
    }
    assert(o@.native_fields[0] == o.native_fields@[0]@);
    let t = match &o.native_fields[0] {
        NativeField::ArrayType(t) => t,
        _ => {
            return Err(Fault::WrongObjectKind);
        },
    };
    if t.get_size() == 2 {
        let a = match crate::object::Array2::extract(o) {
            Ok(a) => a,
            Err(f) => {
                return Err(f);
            },
        };
        match t {
            crate::class::FieldType::Long => Ok(longs_text(a.contents)),
            _ => Err(Fault::Unsupported),
        }
    } else {
        let a = match crate::object::Array1::extract(o) {
            Ok(a) => a,
            Err(f) => {
                return Err(f);
            },
        };
        match t {
            crate::class::FieldType::Int => Ok(words_text(a.contents, &ItemStyle::Int)),
            crate::class::FieldType::Float => Err(Fault::Unsupported),
            _ => Ok(words_text(a.contents, &ItemStyle::Reference)),
        }
    }
}

/// `Arrays.toString`: the text of the array (see `array_text`), as a string.
pub fn arrays_to_string(thread: &mut Thread) -> (r: Result<(), Error>)
    requires
        old(thread).wf(),
    ensures
        final(thread).wf(),
        old(thread).stackframe@.locals.len() == 0 ==> r == Err::<(), Error>(Error::Misc(Fault::LocalOutOfRange)),
        old(thread).stackframe@.locals.len() > 0 ==> match array_text(
            old(thread).heap@,
            old(thread).stackframe@.locals[0],
        ) {
            Err(f) => r == Err::<(), Error>(Error::Misc(f)),
            Ok(s) => {
                let (h, p) = spec_allocate_str(old(thread).heap@, s);
                word_returned(old(thread), h, final(thread), p, r)
            },
        },
{
    let this = arg(thread, 0)?;
    let text = match array_text_of(&thread.heap, this) {
        Ok(t) => t,
        Err(f) => {
            return Err(Error::Misc(f));
        },
    };
    return_text(thread, text)
}

/// What `Arrays.deepToString` writes for the array `ptr`, following arrays
/// of arrays at most `depth` deep (deeper is refused as an overflow):
/// numbers, booleans and characters as `Debug` writes them. Arrays of `float`
/// and `double` are refused as unsupported, of `long` and of objects as
/// unimplemented.
pub open spec fn deep_text(h: HeapView, ptr: u32, depth: nat) -> Result<Seq<char>, Fault>
    decreases depth, 0nat,
{
    if depth == 0 {
        Err(Fault::Overflow)
    } else {
        match array_type_of(h, ptr) {
            Err(f) => Err(f),
            Ok(t) => {
                let o = object_at(h, ptr as int)->Some_0;
                match t {
                    FieldTypeView::Float | FieldTypeView::Double => Err(Fault::Unsupported),
                    FieldTypeView::Long | FieldTypeView::Object(_) => Err(Fault::Unimplemented),
                    _ => if !is_array1(o) {
                        Err(Fault::WrongObjectKind)
                    } else {
                        match t {
                            FieldTypeView::Array(_) => match deep_items(h, words_of(o), (depth - 1) as nat) {
                                Err(f) => Err(f),
                                Ok(items) => Ok(bracketed(items)),
                            },
                            FieldTypeView::Boolean => Ok(
                                bracketed(words_of(o).map_values(|w: u32| item_text(ItemStyle::Boolean, w))),
                            ),
                            FieldTypeView::Char => Ok(
                                bracketed(words_of(o).map_values(|w: u32| item_text(ItemStyle::Char, w))),
                            ),
                            _ => Ok(bracketed(words_of(o).map_values(|w: u32| item_text(ItemStyle::Int, w)))),
                        }
                    },
                }
            },
        }
    }
}

/// The texts of the arrays `ws`, in order (see `deep_text`); the first
/// refusal wins.
pub open spec fn deep_items(h: HeapView, ws: Seq<u32>, depth: nat) -> Result<Seq<Seq<char>>, Fault>
    decreases depth, ws.len(),
{
    if ws.len() == 0 {
        Ok(seq![])
    } else {
        match deep_items(h, ws.drop_last(), depth) {
            Err(f) => Err(f),
            Ok(items) => match deep_text(h, ws.last(), depth) {
                Err(f) => Err(f),
                Ok(t) => Ok(items.push(t)),
            },
        }
    }
}

/// A refusal among the first `k` arrays is the refusal for all of them.
proof fn lemma_deep_items_err(h: HeapView, ws: Seq<u32>, k: int, depth: nat)
    requires
        0 <= k <= ws.len(),
        deep_items(h, ws.subrange(0, k), depth) is Err,
    ensures
        deep_items(h, ws, depth) == deep_items(h, ws.subrange(0, k), depth),
    decreases ws.len() - k,
{
    if k == ws.len() {
        assert(ws.subrange(0, k) =~= ws);
    } else {
        assert(ws.drop_last().subrange(0, k) =~= ws.subrange(0, k));
        lemma_deep_items_err(h, ws.drop_last(), k, depth);
    }
}

/// The text of the array `ptr` (see `deep_text`).
pub fn deep_text_of(heap: &Heap, ptr: u32, depth: usize) -> (r: Result<Vec<char>, Fault>)
    ensures
        match deep_text(heap@, ptr, depth as nat) {
            Ok(s) => r matches Ok(v) && v@ == s,
            Err(f) => r == Err::<Vec<char>, Fault>(f),
        },
    decreases depth,
{
    if depth == 0 {
        return Err(Fault::Overflow);
    }
    let o = match heap.get(ptr as usize) {
        Some(o) => o,
        None => {
            return Err(Fault::NullPointer);
        },
    };
    if o.native_fields.len() == 0 {
        return Err(Fault::WrongObjectKind);
    }
    assert(o@.native_fields[0] == o.native_fields@[0]@);
    let t = match &o.native_fields[0] {
        NativeField::ArrayType(t) => t,
        _ => {
            return Err(Fault::WrongObjectKind);
        },
    };
    match t {
        crate::class::FieldType::Float | crate::class::FieldType::Double => {
            return Err(Fault::Unsupported);
        },
        crate::class::FieldType::Long | crate::class::FieldType::Object(_) => {
            return Err(Fault::Unimplemented);
        },
        _ => {},
    }
    let a = match crate::object::Array1::extract(o) {
        Ok(a) => a,
        Err(f) => {
            return Err(f);
        },
    };
    match t {
        crate::class::FieldType::Array(_) => {
            let ws = a.contents;
            let ghost items_all = deep_items(heap@, ws@, (depth - 1) as nat);
            let mut out: Vec<char> = vec!['['];
            let mut i: usize = 0;
            assert(words_of(o@) == ws@);
            assert(array_type_of(heap@, ptr) == Ok::<FieldTypeView, Fault>(t@));
            while i < ws.len()
                invariant
                    i <= ws@.len(),
                    depth > 0,
                    words_of(o@) == ws@,
                    is_array1(o@),
                    object_at(heap@, ptr as int) == Some(o@),
                    array_type_of(heap@, ptr) == Ok::<FieldTypeView, Fault>(t@),
                    t@ is Array,
                    match deep_items(heap@, ws@.subrange(0, i as int), (depth - 1) as nat) {
                        Ok(items) => out@ == seq!['['] + comma_list(items) && items.len() == i,
                        Err(_) => false,
                    },
                decreases ws@.len() - i,
            {
                let ghost pre = ws@.subrange(0, i as int);
                let ghost items = deep_items(heap@, pre, (depth - 1) as nat)->Ok_0;
                assert(ws@.subrange(0, i + 1).drop_last() =~= pre);
                assert(ws@.subrange(0, i + 1).last() == ws@[i as int]);
                let item = match deep_text_of(heap, ws[i], depth - 1) {
                    Ok(t) => t,
                    Err(f) => {
                        proof {
                            let sub = ws@.subrange(0, i + 1);
                            assert(sub.drop_last() =~= pre);
                            assert(sub.last() == ws@[i as int]);
                            assert(deep_items(heap@, sub, (depth - 1) as nat) == Err::<Seq<Seq<char>>, Fault>(f));
                            lemma_deep_items_err(heap@, ws@, i + 1, (depth - 1) as nat);
                            assert(words_of(o@) == ws@);
                            assert(deep_items(heap@, words_of(o@), (depth - 1) as nat) == Err::<Seq<Seq<char>>, Fault>(f));
                            assert(array_type_of(heap@, ptr) == Ok::<FieldTypeView, Fault>(t@));
                            assert(t@ is Array);
                            assert(deep_text(heap@, ptr, depth as nat) == Err::<Seq<char>, Fault>(f));
                        }
                        return Err(f);
                    },
                };
                if i > 0 {
                    out.push(',');
                    out.push(' ');
                }
                push_all(&mut out, &item);
                proof {
                    let next = items.push(item@);
                    assert(next.drop_last() =~= items);
                    if i == 0 {
                        assert(out@ =~= seq!['['] + comma_list(next));
                    } else {
                        assert(out@ =~= seq!['['] + comma_list(next));
                    }
                }
                i = i + 1;
            }
            assert(ws@.subrange(0, ws@.len() as int) =~= ws@);
            out.push(']');
            proof {
                let items = deep_items(heap@, ws@, (depth - 1) as nat)->Ok_0;
                assert(out@ =~= bracketed(items));
            }
            Ok(out)
        },
        crate::class::FieldType::Boolean => Ok(words_text(a.contents, &ItemStyle::Boolean)),
        crate::class::FieldType::Char => Ok(words_text(a.contents, &ItemStyle::Char)),
        _ => Ok(words_text(a.contents, &ItemStyle::Int)),
    }
}

/// `Arrays.deepToString`: the text of the array (see `deep_text`), following
/// arrays of arrays as deep as the heap has objects, as a string.
pub fn arrays_deep_to_string(thread: &mut Thread) -> (r: Result<(), Error>)
    requires
        old(thread).wf(),
    ensures
        final(thread).wf(),
        old(thread).stackframe@.locals.len() == 0 ==> r == Err::<(), Error>(Error::Misc(Fault::LocalOutOfRange)),
        old(thread).stackframe@.locals.len() > 0 ==> match deep_text(
            old(thread).heap@,
            old(thread).stackframe@.locals[0],
            old(thread).heap@.contents.len(),
        ) {
            Err(f) => r == Err::<(), Error>(Error::Misc(f)),
            Ok(s) => {
                let (h, p) = spec_allocate_str(old(thread).heap@, s);
                word_returned(old(thread), h, final(thread), p, r)
            },
        },
{
    let this = arg(thread, 0)?;
    let depth = thread.heap.len();
    let text = match deep_text_of(&thread.heap, this, depth) {
        Ok(t) => t,
        Err(f) => {
            return Err(Error::Misc(f));
        },
    };
    return_text(thread, text)
}

/// `d` with the elements from `at` on replaced by `s`.
pub open spec fn copied_into<T>(d: Seq<T>, at: int, s: Seq<T>) -> Seq<T> {
    Seq::new(d.len(), |k: int| if at <= k < at + s.len() { s[k - at] } else { d[k] })
}

/// The heap after `System.arraycopy(src, start, dest, start_dest, count)`:
/// the `count` elements of `src` from `start` on become those of `dest` from
/// `start_dest` on. Refused: a reference to no array, arrays of different
/// element sizes, a range past either end.
pub open spec fn array_copied(h: HeapView, src: u32, start: u32, dest: u32, at: u32, count: u32) -> Result<
    HeapView,
    Fault,
> {
    match array_type_of(h, src) {
        Err(f) => Err(f),
        Ok(t) => {
            let so = object_at(h, src as int)->Some_0;
            if t.size() == 1 {
                if !is_array1(so) {
                    Err(Fault::WrongObjectKind)
                } else if start as int + count as int > u32::MAX {
                    Err(Fault::Overflow)
                } else if start as int + count as int > words_of(so).len() {
                    Err(Fault::IndexOutOfBounds)
                } else {
                    let s = words_of(so).subrange(start as int, start + count);
                    match object_at(h, dest as int) {
                        None => Err(Fault::NullPointer),
                        Some(d) => if !is_array1(d) {
                            Err(Fault::WrongObjectKind)
                        } else if at as int + count as int > words_of(d).len() {
                            Err(Fault::IndexOutOfBounds)
                        } else {
                            Ok(with_object(h, slot_of(h, dest as int), ObjectView {
                                native_fields: d.native_fields.update(
                                    1,
                                    NativeFieldView::Words(copied_into(words_of(d), at as int, s)),
                                ),
                                ..d
                            }))
                        },
                    }
                }
            } else {
                if !is_array2(so) {
                    Err(Fault::WrongObjectKind)
                } else if start as int + count as int > u32::MAX {
                    Err(Fault::Overflow)
                } else if start as int + count as int > longs_of(so).len() {
                    Err(Fault::IndexOutOfBounds)
                } else {
                    let s = longs_of(so).subrange(start as int, start + count);
                    match object_at(h, dest as int) {
                        None => Err(Fault::NullPointer),
                        Some(d) => if !is_array2(d) {
                            Err(Fault::WrongObjectKind)
                        } else if at as int + count as int > longs_of(d).len() {
                            Err(Fault::IndexOutOfBounds)
                        } else {
                            Ok(with_object(h, slot_of(h, dest as int), ObjectView {
                                native_fields: d.native_fields.update(
                                    1,
                                    NativeFieldView::Longs(copied_into(longs_of(d), at as int, s)),
                                ),
                                ..d
                            }))
                        },
                    }
                }
            }
        },
    }
}

/// `d` with the elements from `at` on replaced by `s` (see `copied_into`).
fn copy_into<T: Copy>(d: &mut Vec<T>, at: usize, s: &Vec<T>)
    requires
        at + s@.len() <= old(d)@.len(),
    ensures
        final(d)@ == copied_into(old(d)@, at as int, s@),
{
    let mut i: usize = 0;
    let n = d.len();
    while i < s.len()
        invariant
            n == d@.len(),
            at + s@.len() <= d@.len(),
            d@.len() == old(d)@.len(),
            i <= s@.len(),
            d@ =~= Seq::new(
                old(d)@.len(),
                |k: int| if at <= k < at + i { s@[k - at] } else { old(d)@[k] },
            ),
        decreases s@.len() - i,
    {
        d.set(at + i, s[i]);
        i = i + 1;
    }
}

/// The elements of `v` from `start`, `count` of them.
fn slice_of<T: Copy>(v: &Vec<T>, start: usize, count: usize) -> (r: Vec<T>)
    requires
        start + count <= v@.len(),
    ensures
        r@ == v@.subrange(start as int, start + count),
{
    let mut r: Vec<T> = Vec::new();
    let mut i: usize = 0;
    let n = v.len();
    while i < count
        invariant
            n == v@.len(),
            start + count <= v@.len(),
            i <= count,
            r@ =~= v@.subrange(start as int, start + i),
        decreases count - i,
    {
        r.push(v[start + i]);
        i = i + 1;
    }
    r
}

/// Does the copy of `System.arraycopy` (see `array_copied`); on a fault the
/// heap is as it was.
pub fn copy_array(heap: &mut Heap, src: u32, start: u32, dest: u32, at: u32, count: u32) -> (r: Result<(), Fault>)
    requires
        old(heap).wf(),
    ensures
        final(heap).wf(),
        match array_copied(old(heap)@, src, start, dest, at, count) {
            Ok(h) => r is Ok && final(heap)@ == h,
            Err(f) => r == Err::<(), Fault>(f) && final(heap)@ == old(heap)@,
        },
{
    let so = match heap.get(src as usize) {
        Some(o) => o,
        None => {
            return Err(Fault::NullPointer);
        },
    };
    if so.native_fields.len() == 0 {
        return Err(Fault::WrongObjectKind);
    }
    assert(so@.native_fields[0] == so.native_fields@[0]@);
    let size = match &so.native_fields[0] {
        NativeField::ArrayType(t) => t.get_size(),
        _ => {
            return Err(Fault::WrongObjectKind);
        },
    };
    if size == 1 {
        let a = match crate::object::Array1::extract(so) {
            Ok(a) => a,
            Err(f) => {
                return Err(f);
            },
        };
        if start as u64 + count as u64 > u32::MAX as u64 {
            return Err(Fault::Overflow);
        }
        if start as u64 + count as u64 > a.contents.len() as u64 {
            return Err(Fault::IndexOutOfBounds);
        }
        let s = slice_of(a.contents, start as usize, count as usize);
        let (i, mut d) = heap.take(dest)?;
        let ghost dv = d@;
        if d.native_fields.len() != 2 {
            heap.restore(i, d);
            assert(heap@.contents =~= old(heap)@.contents);
            return Err(Fault::WrongObjectKind);
        }
        assert(dv.native_fields[0] == d.native_fields@[0]@);
        assert(dv.native_fields[1] == d.native_fields@[1]@);
        if !matches!(&d.native_fields[0], NativeField::ArrayType(_)) {
            heap.restore(i, d);
            assert(heap@.contents =~= old(heap)@.contents);
            return Err(Fault::WrongObjectKind);
        }
        let mut elems = match d.native_fields.remove(1) {
            NativeField::Words(w) => w,
            other => {
                d.native_fields.insert(1, other);
                assert(native_fields_view(d.native_fields@) =~= dv.native_fields);
                heap.restore(i, d);
                assert(heap@.contents =~= old(heap)@.contents);
                return Err(Fault::WrongObjectKind);
            },
        };
        if at as u64 + count as u64 > elems.len() as u64 {
            d.native_fields.insert(1, NativeField::Words(elems));
            assert(native_fields_view(d.native_fields@) =~= dv.native_fields);
            heap.restore(i, d);
            assert(heap@.contents =~= old(heap)@.contents);
            return Err(Fault::IndexOutOfBounds);
        }
        copy_into(&mut elems, at as usize, &s);
        let ghost ev = elems@;
        d.native_fields.insert(1, NativeField::Words(elems));
        assert(native_fields_view(d.native_fields@) =~= dv.native_fields.update(1, NativeFieldView::Words(ev)));
        heap.restore(i, d);
        proof {
            let h = array_copied(old(heap)@, src, start, dest, at, count)->Ok_0;
            assert(heap@.contents =~= h.contents);
        }
        Ok(())
    } else {
        let a = match crate::object::Array2::extract(so) {
            Ok(a) => a,
            Err(f) => {
                return Err(f);
            },
        };
        if start as u64 + count as u64 > u32::MAX as u64 {
            return Err(Fault::Overflow);
        }
        if start as u64 + count as u64 > a.contents.len() as u64 {
            return Err(Fault::IndexOutOfBounds);
        }
        let s = slice_of(a.contents, start as usize, count as usize);
        let (i, mut d) = heap.take(dest)?;
        let ghost dv = d@;
        if d.native_fields.len() != 2 {
            heap.restore(i, d);
            assert(heap@.contents =~= old(heap)@.contents);
            return Err(Fault::WrongObjectKind);
        }
        assert(dv.native_fields[0] == d.native_fields@[0]@);
        assert(dv.native_fields[1] == d.native_fields@[1]@);
        if !matches!(&d.native_fields[0], NativeField::ArrayType(_)) {
            heap.restore(i, d);
            assert(heap@.contents =~= old(heap)@.contents);
            return Err(Fault::WrongObjectKind);
        }
        let mut elems = match d.native_fields.remove(1) {
            NativeField::Longs(w) => w,
            other => {
                d.native_fields.insert(1, other);
                assert(native_fields_view(d.native_fields@) =~= dv.native_fields);
                heap.restore(i, d);
                assert(heap@.contents =~= old(heap)@.contents);
                return Err(Fault::WrongObjectKind);
            },
        };
        if at as u64 + count as u64 > elems.len() as u64 {
            d.native_fields.insert(1, NativeField::Longs(elems));
            assert(native_fields_view(d.native_fields@) =~= dv.native_fields);
            heap.restore(i, d);
            assert(heap@.contents =~= old(heap)@.contents);
            return Err(Fault::IndexOutOfBounds);
        }
        copy_into(&mut elems, at as usize, &s);
        let ghost ev = elems@;
        d.native_fields.insert(1, NativeField::Longs(elems));
        assert(native_fields_view(d.native_fields@) =~= dv.native_fields.update(1, NativeFieldView::Longs(ev)));
        heap.restore(i, d);
        proof {
            let h = array_copied(old(heap)@, src, start, dest, at, count)->Ok_0;
            assert(heap@.contents =~= h.contents);
        }
        Ok(())
    }
}

/// `System.arraycopy(src, start, dest, start_dest, count)` (see
/// `array_copied`).
pub fn arraycopy(thread: &mut Thread) -> (r: Result<(), Error>)
    requires
        old(thread).wf(),
    ensures
        final(thread).wf(),
        old(thread).stackframe@.locals.len() < 5 ==> r == Err::<(), Error>(Error::Misc(Fault::LocalOutOfRange)),
        old(thread).stackframe@.locals.len() >= 5 ==> {
            let l = old(thread).stackframe@.locals;
            match array_copied(old(thread).heap@, l[0], l[1], l[2], l[3], l[4]) {
                Err(f) => r == Err::<(), Error>(Error::Misc(f)),
                Ok(h) => void_returned(old(thread), h, final(thread), r),
            }
        },
{
    let src = arg(thread, 0)?;
    let start = arg(thread, 1)?;
    let dest = arg(thread, 2)?;
    let at = arg(thread, 3)?;
    let count = arg(thread, 4)?;
    match copy_array(&mut thread.heap, src, start, dest, at, count) {
        Ok(()) => {},
        Err(f) => {
            return Err(Error::Misc(f));
        },
    }
    thread.return_nothing()
}

/// After a copy the elements in the range copied are the source's, in
/// order, and every other element is as it was.
pub proof fn law_copied_into<T>(d: Seq<T>, at: int, s: Seq<T>, k: int)
    requires
        0 <= at,
        at + s.len() <= d.len(),
        0 <= k < d.len(),
    ensures
        copied_into(d, at, s).len() == d.len(),
        at <= k < at + s.len() ==> copied_into(d, at, s)[k] == s[k - at],
        !(at <= k < at + s.len()) ==> copied_into(d, at, s)[k] == d[k],
{
}

} // verus!
