//! The native methods of `java/lang/String`, and printing an object.
use vstd::prelude::*;

use crate::class::MethodDescriptor;
use crate::data::NULL;
use crate::dynamic::{string_at, string_of};
use crate::error::{Error, Fault};
use crate::heap::{spec_allocate_str, HeapView};
use crate::native::{arg, call_on, called_on, descriptor, object_type, void_returned, word_returned};
use crate::text::chars;
use crate::thread::{frames_view, spec_resolve, Thread};

verus! {

/// The number of bytes of the UTF-8 encoding of `c`.
pub open spec fn utf8_width(c: char) -> nat {
    if (c as u32) < 0x80 {
        1
    } else if (c as u32) < 0x800 {
        2
    } else if (c as u32) < 0x10000 {
        3
    } else {
        4
    }
}

/// The number of bytes of the UTF-8 encoding of `s`.
pub open spec fn utf8_len(s: Seq<char>) -> nat
    decreases s.len(),
{
    if s.len() == 0 {
        0
    } else {
        utf8_len(s.drop_last()) + utf8_width(s.last())
    }
}

/// The UTF-8 encoding of `s` followed by that of `c` is that of `s` with
/// `c` added, as far as lengths go.
proof fn lemma_encode_push_len(s: Seq<char>)
    requires
        s.len() > 0,
    ensures
        vstd::utf8::encode_utf8(s).len() == vstd::utf8::encode_utf8(s.drop_last()).len()
            + vstd::utf8::encode_scalar(s.last() as u32).len(),
    decreases s.len(),
{
    if s.len() == 1 {
        assert(s.drop_first() =~= Seq::<char>::empty());
        assert(s.drop_last() =~= Seq::<char>::empty());
        assert(vstd::utf8::encode_utf8(Seq::<char>::empty()) =~= Seq::<u8>::empty());
    } else {
        let t = s.drop_first();
        lemma_encode_push_len(t);
        assert(t.drop_last() =~= s.drop_last().drop_first());
        assert(t.last() == s.last());
        assert(s.drop_last()[0] == s[0]);
    }
}

/// `String.length` counts the bytes of the UTF-8 encoding of the text:
/// the length the library gives is that of the encoding (as vstd defines
/// UTF-8), whatever the characters.
pub proof fn law_length_is_utf8_bytes(s: Seq<char>)
    ensures
        utf8_len(s) == vstd::utf8::encode_utf8(s).len(),
    decreases s.len(),
{
    if s.len() == 0 {
        assert(vstd::utf8::encode_utf8(s) =~= Seq::<u8>::empty());
    } else {
        law_length_is_utf8_bytes(s.drop_last());
        lemma_encode_push_len(s);
        let c = s.last();
        vstd::utf8::char_is_scalar(c);
        assert(utf8_width(c) == vstd::utf8::encode_scalar(c as u32).len());
    }
}

/// The order of two strings, character by character (by code point), a
/// proper prefix first: -1, 0 or 1.
pub open spec fn compare_text(a: Seq<char>, b: Seq<char>) -> int
    decreases a.len(),
{
    if a.len() == 0 {
        if b.len() == 0 {
            0
        } else {
            -1
        }
    } else if b.len() == 0 {
        1
    } else if a[0] == b[0] {
        compare_text(a.drop_first(), b.drop_first())
    } else if (a[0] as u32) < (b[0] as u32) {
        -1
    } else {
        1
    }
}

/// The word for an order: -1 as all ones, 0 and 1 as themselves.
pub open spec fn order_word(o: int) -> u32 {
    if o < 0 {
        u32::MAX
    } else if o == 0 {
        0
    } else {
        1
    }
}

/// Whether `b` occurs in `a` starting at `i`.
pub open spec fn occurs_at(a: Seq<char>, b: Seq<char>, i: int) -> bool {
    0 <= i && i + b.len() <= a.len() && a.subrange(i, i + b.len()) == b
}

/// Whether `b` occurs in `a`.
pub open spec fn contains_text(a: Seq<char>, b: Seq<char>) -> bool {
    exists|i: int| #[trigger] occurs_at(a, b, i)
}

/// The number of UTF-8 bytes of `s`, cut to 32 bits.
pub fn utf8_length(s: &Vec<char>) -> (r: u32)
    ensures
        r == utf8_len(s@) % 0x1_0000_0000,
{
    let mut count: u32 = 0;
    let mut i: usize = 0;
    while i < s.len()
        invariant
            i <= s@.len(),
            count == utf8_len(s@.subrange(0, i as int)) % 0x1_0000_0000,
        decreases s@.len() - i,
    {
        let c = s[i] as u32;
        let w: u32 = if c < 0x80 {
            1
        } else if c < 0x800 {
            2
        } else if c < 0x10000 {
            3
        } else {
            4
        };
        proof {
            let pre = s@.subrange(0, i as int);
            assert(s@.subrange(0, i + 1).drop_last() =~= pre);
            assert(w == utf8_width(s@[i as int]));
            assert(utf8_len(s@.subrange(0, i + 1)) == utf8_len(pre) + w);
            vstd::arithmetic::div_mod::lemma_add_mod_noop(utf8_len(pre) as int, w as int, 0x1_0000_0000);
            vstd::arithmetic::div_mod::lemma_small_mod(w as nat, 0x1_0000_0000);
            if count + w < 0x1_0000_0000 {
                vstd::arithmetic::div_mod::lemma_small_mod((count + w) as nat, 0x1_0000_0000);
            } else {
                vstd::arithmetic::div_mod::lemma_small_mod((count + w - 0x1_0000_0000) as nat, 0x1_0000_0000);
                vstd::arithmetic::div_mod::lemma_mod_sub_multiples_vanish((count + w) as int, 0x1_0000_0000);
            }
        }
        count = count.wrapping_add(w);
        i = i + 1;
    }
    assert(s@.subrange(0, s@.len() as int) =~= s@);
    count
}

/// The order of `a` and `b` (see `compare_text`).
pub fn compare_chars(a: &Vec<char>, b: &Vec<char>) -> (r: i8)
    ensures
        r == compare_text(a@, b@),
{
    let mut i: usize = 0;
    assert(a@.skip(0) =~= a@ && b@.skip(0) =~= b@);
    while i < a.len() && i < b.len()
        invariant
            i <= a@.len(),
            i <= b@.len(),
            compare_text(a@, b@) == compare_text(a@.skip(i as int), b@.skip(i as int)),
        decreases a@.len() - i,
    {
        proof {
            assert(a@.skip(i as int).drop_first() =~= a@.skip(i + 1));
            assert(b@.skip(i as int).drop_first() =~= b@.skip(i + 1));
            assert(a@.skip(i as int)[0] == a@[i as int]);
            assert(b@.skip(i as int)[0] == b@[i as int]);
        }
        if a[i] != b[i] {
            let x = a[i] as u32;
            let y = b[i] as u32;
            if x < y {
                return -1;
            }
            return 1;
        }
        i = i + 1;
    }
    if i < a.len() {
        1
    } else if i < b.len() {
        -1
    } else {
        0
    }
}

/// Whether `b` occurs in `a` starting at `i`, checked character by character.
fn matches_at(a: &Vec<char>, b: &Vec<char>, i: usize) -> (r: bool)
    requires
        i + b@.len() <= a@.len(),
    ensures
        r == occurs_at(a@, b@, i as int),
{
    let mut j: usize = 0;
    let n = a.len();
    while j < b.len()
        invariant
            n == a@.len(),
            i + b@.len() <= a@.len(),
            j <= b@.len(),
            forall|k: int| 0 <= k < j ==> a@[i + k] == b@[k],
        decreases b@.len() - j,
    {
        assert(i + j < a@.len());
        if a[i + j] != b[j] {
            assert(a@.subrange(i as int, i + b@.len())[j as int] != b@[j as int]);
            return false;
        }
        j = j + 1;
    }
    assert(a@.subrange(i as int, i + b@.len()) =~= b@);
    true
}

/// Whether `b` occurs in `a` (see `contains_text`).
pub fn find_text(a: &Vec<char>, b: &Vec<char>) -> (r: bool)
    ensures
        r == contains_text(a@, b@),
{
    if b.len() > a.len() {
        assert forall|i: int| !#[trigger] occurs_at(a@, b@, i) by {}
        return false;
    }
    let last = a.len() - b.len();
    let mut i: usize = 0;
    loop
        invariant
            i <= last,
            last + b@.len() == a@.len(),
            forall|k: int| 0 <= k < i ==> !#[trigger] occurs_at(a@, b@, k),
        ensures
            forall|k: int| 0 <= k <= last ==> !#[trigger] occurs_at(a@, b@, k),
        decreases last - i,
    {
        if matches_at(a, b, i) {
            assert(occurs_at(a@, b@, i as int));
            return true;
        }
        if i == last {
            break;
        }
        i = i + 1;
    }
    assert forall|k: int| !#[trigger] occurs_at(a@, b@, k) by {
        if 0 <= k && k + b@.len() <= a@.len() {
            assert(k <= last);
        }
    }
    false
}

/// The characters of the string object `ptr` (see `string_at`).
pub fn text_of(heap: &crate::heap::Heap, ptr: u32) -> (r: Result<Vec<char>, Error>)
    ensures
        match string_at(heap@, ptr) {
            Ok(s) => r matches Ok(v) && v@ == s,
            Err(f) => r == Err::<Vec<char>, Error>(Error::Misc(f)),
        },
{
    match string_of(heap, ptr) {
        Ok(v) => Ok(v),
        Err(f) => Err(Error::Misc(f)),
    }
}

/// `String.length`: the number of UTF-8 bytes of the string, cut to 32 bits.
pub fn string_length(thread: &mut Thread) -> (r: Result<(), Error>)
    requires
        old(thread).wf(),
    ensures
        final(thread).wf(),
        old(thread).stackframe@.locals.len() == 0 ==> r == Err::<(), Error>(Error::Misc(Fault::LocalOutOfRange)),
        old(thread).stackframe@.locals.len() > 0 ==> match string_at(
            old(thread).heap@,
            old(thread).stackframe@.locals[0],
        ) {
            Err(f) => r == Err::<(), Error>(Error::Misc(f)) && *final(thread) == *old(thread),
            Ok(s) => word_returned(
                old(thread),
                old(thread).heap@,
                final(thread),
                (utf8_len(s) % 0x1_0000_0000) as u32,
                r,
            ),
        },
{
    let this = arg(thread, 0)?;
    let s = text_of(&thread.heap, this)?;
    let n = utf8_length(&s);
    thread.return_word(n)
}

/// `String.charAt`: the code point of the character at the index. An index
/// past the end is refused.
pub fn string_char_at(thread: &mut Thread) -> (r: Result<(), Error>)
    requires
        old(thread).wf(),
    ensures
        final(thread).wf(),
        old(thread).stackframe@.locals.len() < 2 ==> r == Err::<(), Error>(Error::Misc(Fault::LocalOutOfRange)),
        old(thread).stackframe@.locals.len() >= 2 ==> match string_at(
            old(thread).heap@,
            old(thread).stackframe@.locals[0],
        ) {
            Err(f) => r == Err::<(), Error>(Error::Misc(f)) && *final(thread) == *old(thread),
            Ok(s) => {
                let i = old(thread).stackframe@.locals[1];
                if i < s.len() {
                    word_returned(old(thread), old(thread).heap@, final(thread), s[i as int] as u32, r)
                } else {
                    r == Err::<(), Error>(Error::Misc(Fault::IndexOutOfBounds)) && *final(thread) == *old(thread)
                }
            },
        },
{
    let this = arg(thread, 0)?;
    let index = arg(thread, 1)?;
    let s = text_of(&thread.heap, this)?;
    if index as usize >= s.len() {
        return Err(Error::Misc(Fault::IndexOutOfBounds));
    }
    let c = s[index as usize] as u32;
    thread.return_word(c)
}

/// `String.toString`: the string itself.
pub fn string_to_string(thread: &mut Thread) -> (r: Result<(), Error>)
    requires
        old(thread).wf(),
    ensures
        final(thread).wf(),
        old(thread).stackframe@.locals.len() == 0 ==> r == Err::<(), Error>(Error::Misc(Fault::LocalOutOfRange)),
        old(thread).stackframe@.locals.len() > 0 ==> word_returned(
            old(thread),
            old(thread).heap@,
            final(thread),
            old(thread).stackframe@.locals[0],
            r,
        ),
{
    let this = arg(thread, 0)?;
    thread.return_word(this)
}

/// `String.compareTo`: -1 (all ones), 0 or 1, by `compare_text`.
pub fn string_compare_to(thread: &mut Thread) -> (r: Result<(), Error>)
    requires
        old(thread).wf(),
    ensures
        final(thread).wf(),
        old(thread).stackframe@.locals.len() < 2 ==> r == Err::<(), Error>(Error::Misc(Fault::LocalOutOfRange)),
        old(thread).stackframe@.locals.len() >= 2 ==> match (
            string_at(old(thread).heap@, old(thread).stackframe@.locals[0]),
            string_at(old(thread).heap@, old(thread).stackframe@.locals[1]),
        ) {
            (Err(f), _) => r == Err::<(), Error>(Error::Misc(f)) && *final(thread) == *old(thread),
            (Ok(_), Err(f)) => r == Err::<(), Error>(Error::Misc(f)) && *final(thread) == *old(thread),
            (Ok(a), Ok(b)) => word_returned(
                old(thread),
                old(thread).heap@,
                final(thread),
                order_word(compare_text(a, b)),
                r,
            ),
        },
{
    let this = arg(thread, 0)?;
    let other = arg(thread, 1)?;
    let a = text_of(&thread.heap, this)?;
    let b = text_of(&thread.heap, other)?;
    let o = compare_chars(&a, &b);
    let w: u32 = if o < 0 {
        u32::MAX
    } else if o == 0 {
        0
    } else {
        1
    };
    thread.return_word(w)
}

/// `String.contains`: 1 when the other string occurs in this one, else 0.
pub fn string_contains(thread: &mut Thread) -> (r: Result<(), Error>)
    requires
        old(thread).wf(),
    ensures
        final(thread).wf(),
        old(thread).stackframe@.locals.len() < 2 ==> r == Err::<(), Error>(Error::Misc(Fault::LocalOutOfRange)),
        old(thread).stackframe@.locals.len() >= 2 ==> match (
            string_at(old(thread).heap@, old(thread).stackframe@.locals[0]),
            string_at(old(thread).heap@, old(thread).stackframe@.locals[1]),
        ) {
            (Err(f), _) => r == Err::<(), Error>(Error::Misc(f)) && *final(thread) == *old(thread),
            (Ok(_), Err(f)) => r == Err::<(), Error>(Error::Misc(f)) && *final(thread) == *old(thread),
            (Ok(a), Ok(b)) => word_returned(
                old(thread),
                old(thread).heap@,
                final(thread),
                if contains_text(a, b) {
                    1u32
                } else {
                    0u32
                },
                r,
            ),
        },
{
    let this = arg(thread, 0)?;
    let other = arg(thread, 1)?;
    let a = text_of(&thread.heap, this)?;
    let b = text_of(&thread.heap, other)?;
    let found = find_text(&a, &b);
    thread.return_word(if found {
        1
    } else {
        0
    })
}

/// The descriptor `()Ljava/lang/String;` of `toString`.
pub fn to_string_descriptor() -> (r: MethodDescriptor)
    ensures
        r@ == to_string_view(),
{
    let none: Vec<crate::class::FieldType> = Vec::new();
    assert(crate::class::field_types_view(none@) =~= Seq::<crate::class::FieldTypeView>::empty());
    descriptor(none, Some(object_type("java/lang/String")))
}

/// The descriptor `()Ljava/lang/String;` of `toString`.
pub open spec fn to_string_view() -> crate::class::MethodDescriptorView {
    crate::class::MethodDescriptorView {
        parameter_size: 0,
        parameters: seq![],
        return_type: Some(crate::class::FieldTypeView::Object("java/lang/String"@)),
    }
}

/// `String.valueOf(Object)`: `"null"` for null; otherwise, at its first step,
/// it calls the object's `toString` (coming back at 1), and then returns the
/// string that came back.
pub fn string_value_of(thread: &mut Thread) -> (r: Result<(), Error>)
    requires
        old(thread).wf(),
    ensures
        final(thread).wf(),
        old(thread).stackframe@.locals.len() == 0 ==> r == Err::<(), Error>(Error::Misc(Fault::LocalOutOfRange)),
        old(thread).stackframe@.locals.len() > 0 ==> {
            let obj = old(thread).stackframe@.locals[0];
            let st = old(thread).stackframe@.stack;
            obj == NULL ==> {
                let (h, p) = spec_allocate_str(old(thread).heap@, "null"@);
                word_returned(old(thread), h, final(thread), p, r)
            }
        },
        old(thread).stackframe@.locals.len() > 0 ==> {
            let obj = old(thread).stackframe@.locals[0];
            let st = old(thread).stackframe@.stack;
            if obj == NULL {
                true
            } else if old(thread).pc_register == 0 {
                match spec_resolve(
                    old(thread).heap@,
                    old(thread).class_area@.classes,
                    old(thread).method_area@,
                    obj,
                    "toString"@,
                    to_string_view(),
                ) {
                    Err(e) => r matches Err(er) && er@ == e,
                    Ok((c, m)) => r is Ok && called_on(old(thread), final(thread), c, m, obj, 1),
                }
            } else if st.len() == 0 {
                r == Err::<(), Error>(Error::Misc(Fault::StackUnderflow)) && *final(thread) == *old(thread)
            } else {
                exists|tp: Thread|
                    #[trigger] crate::native::function::popped_one(old(thread), &tp) && word_returned(
                        &tp,
                        tp.heap@,
                        final(thread),
                        st.last(),
                        r,
                    )
            }
        },
{
    let obj = arg(thread, 0)?;
    if obj == NULL {
        let text = chars("null");
        let p = thread.heap.allocate_str(text);
        return thread.return_word(p);
    }
    if thread.pc_register == 0 {
        let name = chars("toString");
        let desc = to_string_descriptor();
        return call_on(thread, obj, name.as_slice(), &desc, 1);
    }
    let v = match crate::native::function::pop_returned(thread) {
        Ok(v) => v,
        Err(e) => {
            return Err(e);
        },
    };
    let ghost tp = *thread;
    let r = thread.return_word(v);
    assert(crate::native::function::popped_one(old(thread), &tp));
    r
}

/// `PrintStream.println(String)` and `println(Object)`: at its first step it
/// calls the object's `toString` (coming back at 1); then it gives the line
/// to print, the string that came back, and returns.
pub fn println_object(thread: &mut Thread) -> (r: Result<Option<Vec<char>>, Error>)
    requires
        old(thread).wf(),
    ensures
        final(thread).wf(),
        old(thread).stackframe@.locals.len() < 2 ==> r == Err::<Option<Vec<char>>, Error>(
            Error::Misc(Fault::LocalOutOfRange),
        ),
        old(thread).stackframe@.locals.len() >= 2 && old(thread).pc_register == 0 ==> match spec_resolve(
            old(thread).heap@,
            old(thread).class_area@.classes,
            old(thread).method_area@,
            old(thread).stackframe@.locals[1],
            "toString"@,
            to_string_view(),
        ) {
            Err(e) => r matches Err(er) && er@ == e,
            Ok((c, m)) => r == Ok::<Option<Vec<char>>, Error>(None) && called_on(
                old(thread),
                final(thread),
                c,
                m,
                old(thread).stackframe@.locals[1],
                1,
            ),
        },
        old(thread).stackframe@.locals.len() >= 2 && old(thread).pc_register != 0 ==> {
            let st = old(thread).stackframe@.stack;
            if st.len() == 0 {
                r == Err::<Option<Vec<char>>, Error>(Error::Misc(Fault::StackUnderflow)) && *final(thread)
                    == *old(thread)
            } else {
                exists|tp: Thread|
                    #[trigger] crate::native::function::popped_one(old(thread), &tp) && match string_at(
                        old(thread).heap@,
                        st.last(),
                    ) {
                        Err(f) => r == Err::<Option<Vec<char>>, Error>(Error::Misc(f)) && *final(thread) == tp,
                        Ok(s) => crate::native::void_returned(&tp, tp.heap@, final(thread), crate::thread::unit_of(r))
                            && (r is Ok ==> (r matches Ok(Some(line)) && line@ == s)),
                    }
            }
        },
{
    let target = arg(thread, 1)?;
    if thread.pc_register == 0 {
        let name = chars("toString");
        let desc = to_string_descriptor();
        call_on(thread, target, name.as_slice(), &desc, 1)?;
        return Ok(None);
    }
    let ret = match crate::native::function::pop_returned(thread) {
        Ok(v) => v,
        Err(e) => {
            return Err(e);
        },
    };
    let ghost tp = *thread;
    assert(crate::native::function::popped_one(old(thread), &tp));
    let line = match text_of(&thread.heap, ret) {
        Ok(t) => t,
        Err(e) => {
            return Err(e);
        },
    };
    match thread.return_nothing() {
        Ok(()) => Ok(Some(line)),
        Err(e) => Err(e),
    }
}

/// A string is equal to itself in the order of `compareTo`.
pub proof fn law_compare_same(a: Seq<char>)
    ensures
        compare_text(a, a) == 0,
    decreases a.len(),
{
    if a.len() > 0 {
        law_compare_same(a.drop_first());
    }
}

/// Swapping two strings turns their order around.
pub proof fn law_compare_swap(a: Seq<char>, b: Seq<char>)
    ensures
        compare_text(a, b) == -compare_text(b, a),
    decreases a.len(),
{
    if a.len() > 0 && b.len() > 0 {
        if a[0] == b[0] {
            law_compare_swap(a.drop_first(), b.drop_first());
        } else {
            vstd::utf8::char_u32_cast(a[0], a[0] as u32);
            vstd::utf8::char_u32_cast(b[0], b[0] as u32);
            assert((a[0] as u32) != (b[0] as u32));
        }
    }
}

/// Every piece of a string occurs in it.
pub proof fn law_contains_piece(a: Seq<char>, i: int, j: int)
    requires
        0 <= i <= j <= a.len(),
    ensures
        contains_text(a, a.subrange(i, j)),
{
    assert(occurs_at(a, a.subrange(i, j), i));
}

} // verus!
