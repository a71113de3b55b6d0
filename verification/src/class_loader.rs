//! Reading class files: big-endian integers, modified UTF-8 strings and
//! type descriptors.
use vstd::prelude::*;

use crate::attribute::{
    attribute_name, attributes_view, get_attributes, get_signature, single_attribute, spec_attribute_name,
    spec_attributes, spec_class, spec_signature, spec_single_attribute, spec_str, AttributeName,
    Attribute, AttributeView, class_index, str_index,
};
use crate::class::{
    ClassVersion, constant_words, constants_view, field_types_view, AccessFlags, Constant, ConstantView, FieldType, FieldTypeView,
    MethodDescriptor, MethodDescriptorView,
};
use crate::constant_pool::{
    cook_constant, lemma_pool_strings_short, parse_constant_pool, spec_constant_pool, raw_class_index, raw_pool_view, raw_str_index, short_strings, spec_cook,
    spec_raw_class, spec_raw_str, RawConstant, RawConstantView,
};
use crate::raw_class::{
    bootstraps_view, inner_classes_view, method_names_view, names_view, placed_fields_view, raw_methods_view,
    MethodName, MethodNameView, RawClass, RawClassView, BootstrapMethod, BootstrapMethodView, Field,
    FieldView, InnerClass, InnerClassView, RawCode, RawCodeView, RawMethod, RawMethodView,
};
use crate::data::{insert_all, raw_method_key, working_entries_view, MethodKey, WorkingMethodArea};
use crate::text::{char_from_u32, copy_chars, is_scalar};

verus! {

/// Why a class file was refused.
#[derive(Clone, Copy, PartialEq, Eq, Structural, Debug)]
pub enum LoadError {
    /// the input ended in the middle of an item
    UnexpectedEof,
    /// the file does not start with `0xCAFEBABE`
    InvalidHeader,
    /// a modified UTF-8 string holds a zero byte
    ZeroByte,
    /// a modified UTF-8 string ends in the middle of a character
    UnexpectedEndOfString,
    /// a modified UTF-8 string encodes a code point that is no character
    InvalidCharacterCode,
    /// a method descriptor does not start with `(`
    ExpectedOpenParen,
    /// a type descriptor starts with something other than a type
    BadFieldType,
    /// a constant-pool entry has an unknown tag (`None`: the input ended)
    BadConstantTag(Option<u8>),
    /// a method-handle constant has an unknown reference kind
    InvalidMethodHandleKind(u8),
    /// a constant index names no entry of the pool
    ConstantIndexOutOfRange,
    /// a constant index that should name a string names something else
    ExpectedString,
    /// a constant index that should name a class reference names something else
    ExpectedClassRef,
    /// a constant index that should name a name-and-type entry does not
    InvalidNameTypeDescriptor,
    /// a method handle refers to a constant of the wrong kind
    InvalidMethodHandle,
    /// `ldc` names a constant it cannot load
    LdcUnloadable,
    /// `ldc2_w` names a constant it cannot load
    Ldc2Unloadable,
    /// a field instruction names something other than a field reference
    BadFieldRef,
    /// a method invocation names something other than a method reference
    BadMethodRef,
    /// `invokeinterface` names something other than an interface method reference
    BadInterfaceRef,
    /// `invokedynamic` names something other than a dynamic call site
    BadInvokeDynamic,
    /// an instruction's reserved byte is not zero
    ExpectedZero,
    /// `newarray` names an unknown element type
    BadArrayType(u8),
    /// `multianewarray` names something other than a class reference
    BadMultiArrayConstant,
    /// `multianewarray` asks for more dimensions than its type has
    ArrayTooShallow,
    /// a byte that is no opcode
    InvalidOpcode(u8),
    /// an opcode that this machine does not implement
    UnsupportedOpcode(u8),
    /// a member has two attributes of a kind that it may have once
    DuplicateAttribute,
    /// a `Signature` attribute names something other than a string
    ExpectedSignatureString,
    /// a stack map frame has an unknown type (`None`: the input ended)
    BadStackMapFrame(Option<u8>),
    /// a verification type has an unknown tag (`None`: the input ended)
    BadVerificationType(Option<u8>),
    /// a `ConstantValue` attribute is not two bytes long
    ConstantValueLength,
    /// a `ConstantValue` attribute names no constant
    ConstantValueIndex,
    /// an abstract method has a `Code` attribute
    AbstractWithCode,
    /// a method that is not abstract has no `Code` attribute
    MissingCode,
    /// a bootstrap method names something other than a method handle
    BootstrapNotMethodHandle,
    /// an `InnerClasses` entry names something other than a class reference
    InnerClassNotClassRef,
    /// the static fields' initial words do not match their sizes
    StaticDataSize,
    /// a branch or exception-table position that is no instruction's start
    BadCodeOffset,
    /// a class that is named is not loaded
    ClassNotFound,
    /// a field instruction names a field that its class does not have
    FieldNotFound,
    /// following superclasses from a class comes back to a class already passed
    CyclicSuperclass,
}

/// `n` items read one after another from `p` by `item`, and the position after them.
pub open spec fn spec_repeat<T>(item: spec_fn(int) -> Result<(T, int), LoadError>, p: int, n: nat) -> Result<
    (Seq<T>, int),
    LoadError,
>
    decreases n,
{
    if n == 0 {
        Ok((seq![], p))
    } else {
        match spec_repeat(item, p, (n - 1) as nat) {
            Ok((xs, q)) => match item(q) {
                Ok((x, r)) => Ok((xs.push(x), r)),
                Err(e) => Err(e),
            },
            Err(e) => Err(e),
        }
    }
}

/// Once reading items fails, reading more fails the same way.
pub proof fn lemma_repeat_err<T>(item: spec_fn(int) -> Result<(T, int), LoadError>, p: int, i: nat, n: nat)
    requires
        i < n,
        spec_repeat(item, p, i) is Ok,
        item(spec_repeat(item, p, i)->Ok_0.1) is Err,
    ensures
        spec_repeat(item, p, n) is Err,
        spec_repeat(item, p, n)->Err_0 == item(spec_repeat(item, p, i)->Ok_0.1)->Err_0,
    decreases n - i,
{
    if i + 1 < n {
        lemma_repeat_err(item, p, i, (n - 1) as nat);
    }
}

/// The big-endian value of the two bytes at `i`.
pub open spec fn be16(s: Seq<u8>, i: int) -> int {
    s[i] as int * 0x100 + s[i + 1] as int
}

/// The big-endian value of the four bytes at `i`.
pub open spec fn be32(s: Seq<u8>, i: int) -> int {
    be16(s, i) * 0x1_0000 + be16(s, i + 2)
}

/// The big-endian value of the eight bytes at `i`.
pub open spec fn be64(s: Seq<u8>, i: int) -> int {
    be32(s, i) * 0x1_0000_0000 + be32(s, i + 4)
}

/// Reads `n` bytes at `*pos` and moves past them.
pub fn get_bytes(bytes: &[u8], pos: &mut usize, n: usize) -> (r: Result<Vec<u8>, LoadError>)
    ensures
        *old(pos) + n <= bytes@.len() ==> r == Ok::<Vec<u8>, LoadError>(r->Ok_0)
            && r->Ok_0@ == bytes@.subrange(*old(pos) as int, *old(pos) + n)
            && *final(pos) == *old(pos) + n,
        *old(pos) + n > bytes@.len() ==> r == Err::<Vec<u8>, LoadError>(LoadError::UnexpectedEof),
{
    if *pos > bytes.len() || n > bytes.len() - *pos {
        return Err(LoadError::UnexpectedEof);
    }
    let start = *pos;
    let mut out: Vec<u8> = Vec::new();
    let mut i: usize = 0;
    while i < n
        invariant
            start + n <= bytes@.len(),
            bytes@.len() <= usize::MAX,
            i <= n,
            out@ == bytes@.subrange(start as int, start + i),
        decreases n - i,
    {
        out.push(bytes[start + i]);
        i = i + 1;
        assert(out@ =~= bytes@.subrange(start as int, start + i));
    }
    *pos = start + n;
    Ok(out)
}

/// Reads a big-endian `u16` at `*pos` and moves past it.
pub fn get_u16(bytes: &[u8], pos: &mut usize) -> (r: Result<u16, LoadError>)
    ensures
        *old(pos) + 2 <= bytes@.len() ==> r == Ok::<u16, LoadError>(be16(bytes@, *old(pos) as int) as u16)
            && *final(pos) == *old(pos) + 2,
        *old(pos) + 2 > bytes@.len() ==> r == Err::<u16, LoadError>(LoadError::UnexpectedEof),
        r matches Ok(v) ==> v == be16(bytes@, *old(pos) as int),
{
    if *pos > bytes.len() || 2 > bytes.len() - *pos {
        return Err(LoadError::UnexpectedEof);
    }
    let p = *pos;
    let v = (bytes[p] as u16) * 0x100 + bytes[p + 1] as u16;
    *pos = p + 2;
    Ok(v)
}

/// Reads a big-endian `u32` at `*pos` and moves past it.
pub fn get_u32(bytes: &[u8], pos: &mut usize) -> (r: Result<u32, LoadError>)
    ensures
        *old(pos) + 4 <= bytes@.len() ==> r == Ok::<u32, LoadError>(be32(bytes@, *old(pos) as int) as u32)
            && *final(pos) == *old(pos) + 4,
        *old(pos) + 4 > bytes@.len() ==> r == Err::<u32, LoadError>(LoadError::UnexpectedEof),
        r matches Ok(v) ==> v == be32(bytes@, *old(pos) as int),
{
    if *pos > bytes.len() || 4 > bytes.len() - *pos {
        return Err(LoadError::UnexpectedEof);
    }
    let p = *pos;
    let hi = (bytes[p] as u32) * 0x100 + bytes[p + 1] as u32;
    let lo = (bytes[p + 2] as u32) * 0x100 + bytes[p + 3] as u32;
    *pos = p + 4;
    Ok(hi * 0x1_0000 + lo)
}

/// Reads a big-endian `u64` at `*pos` and moves past it.
pub fn get_u64(bytes: &[u8], pos: &mut usize) -> (r: Result<u64, LoadError>)
    ensures
        *old(pos) + 8 <= bytes@.len() ==> r == Ok::<u64, LoadError>(be64(bytes@, *old(pos) as int) as u64)
            && *final(pos) == *old(pos) + 8,
        *old(pos) + 8 > bytes@.len() ==> r == Err::<u64, LoadError>(LoadError::UnexpectedEof),
        r matches Ok(v) ==> v == be64(bytes@, *old(pos) as int),
{
    let hi = get_u32(bytes, pos)?;
    let lo = get_u32(bytes, pos)?;
    Ok((hi as u64) * 0x1_0000_0000 + lo as u64)
}

/// Reads `n` big-endian `u16`s at `*pos` and moves past them.
pub fn get_u16_array(bytes: &[u8], pos: &mut usize, n: usize) -> (r: Result<Vec<u16>, LoadError>)
    ensures
        *old(pos) + 2 * n <= bytes@.len() ==> r is Ok && *final(pos) == *old(pos) + 2 * n,
        *old(pos) + 2 * n > bytes@.len() ==> r == Err::<Vec<u16>, LoadError>(LoadError::UnexpectedEof),
        r matches Ok(v) ==> v@.len() == n && forall|k: int|
            0 <= k < n ==> #[trigger] v@[k] == be16(bytes@, *old(pos) + 2 * k),
{
    if *pos > bytes.len() || n > (bytes.len() - *pos) / 2 {
        return Err(LoadError::UnexpectedEof);
    }
    let start = *pos;
    let mut out: Vec<u16> = Vec::new();
    let mut i: usize = 0;
    while i < n
        invariant
            i <= n,
            out@.len() == i,
            *pos == start + 2 * i,
            start + 2 * n <= bytes@.len(),
            forall|k: int| 0 <= k < i ==> #[trigger] out@[k] == be16(bytes@, start + 2 * k),
        decreases n - i,
    {
        let v = get_u16(bytes, pos)?;
        out.push(v);
        i = i + 1;
    }
    Ok(out)
}

/// Prepends `c` to a successful decoding; passes an error on.
pub open spec fn cons_char(c: char, r: Result<Seq<char>, LoadError>) -> Result<Seq<char>, LoadError> {
    match r {
        Ok(t) => Ok(seq![c] + t),
        Err(e) => Err(e),
    }
}

/// The code point of a two-byte modified UTF-8 character.
pub open spec fn two_byte_code(b: u8, y: u8) -> u16 {
    ((b as u16 & 0x1f) << 6u16) | (y as u16 & 0x3f)
}

/// The code point of a three-byte modified UTF-8 character.
pub open spec fn three_byte_code(b: u8, y: u8, z: u8) -> u32 {
    ((b as u32 & 0xf) << 12u32) | ((y as u32 & 0x3f) << 6u32) | (z as u32 & 0x3f)
}

/// The code point of a six-byte modified UTF-8 surrogate pair `0xED v w 0xED y z`.
pub open spec fn six_byte_code(v: u8, w: u8, y: u8, z: u8) -> u32 {
    (0x10000u32 + ((v as u32 & 0x0f) << 16u32) + ((w as u32 & 0x3f) << 10u32) + ((y as u32
        & 0x0f) << 6u32) + (z as u32 & 0x3f)) as u32
}

/// Whether the bytes of `s` at `i` are a six-byte surrogate pair: `0xED`,
/// a byte of `0xA0..=0xAF`, any byte, `0xED`, a byte of `0xB0..=0xBF`, any
/// byte.
pub open spec fn is_surrogate_pair(s: Seq<u8>, i: int) -> bool {
    &&& 0 <= i
    &&& i + 6 <= s.len()
    &&& s[i] == 0xED
    &&& 0xA0 <= s[i + 1] <= 0xAF
    &&& s[i + 3] == 0xED
    &&& 0xB0 <= s[i + 4] <= 0xBF
}

/// The characters that the modified UTF-8 bytes of `s` from `i` on decode to.
/// A byte that starts no character form (a stray continuation byte, or one of
/// `0xF0..=0xFF`) is skipped.
pub open spec fn decode_java_string(s: Seq<u8>, i: int) -> Result<Seq<char>, LoadError>
    decreases s.len() - i,
{
    if i < 0 || i >= s.len() {
        Ok(seq![])
    } else {
        let b = s[i];
        if b == 0 {
            Err(LoadError::ZeroByte)
        } else if b < 128 {
            cons_char(b as char, decode_java_string(s, i + 1))
        } else if b & 0xE0 == 0xC0 {
            if i + 1 >= s.len() {
                Err(LoadError::UnexpectedEndOfString)
            } else {
                let c = two_byte_code(b, s[i + 1]);
                if is_scalar(c as u32) {
                    cons_char(c as char, decode_java_string(s, i + 2))
                } else {
                    Err(LoadError::InvalidCharacterCode)
                }
            }
        } else if is_surrogate_pair(s, i) {
            let c = six_byte_code(s[i + 1], s[i + 2], s[i + 4], s[i + 5]);
            if is_scalar(c) {
                cons_char(c as char, decode_java_string(s, i + 6))
            } else {
                Err(LoadError::InvalidCharacterCode)
            }
        } else if b & 0xF0 == 0xE0 {
            if i + 2 >= s.len() {
                Err(LoadError::UnexpectedEndOfString)
            } else {
                let c = three_byte_code(b, s[i + 1], s[i + 2]);
                if is_scalar(c) {
                    cons_char(c as char, decode_java_string(s, i + 3))
                } else {
                    Err(LoadError::InvalidCharacterCode)
                }
            }
        } else {
            decode_java_string(s, i + 1)
        }
    }
}

/// Appends the rest of a decoding to the characters decoded so far.
pub open spec fn after(p: Seq<char>, r: Result<Seq<char>, LoadError>) -> Result<Seq<char>, LoadError> {
    match r {
        Ok(t) => Ok(p + t),
        Err(e) => Err(e),
    }
}

proof fn lemma_after_cons(p: Seq<char>, c: char, r: Result<Seq<char>, LoadError>)
    ensures
        after(p, cons_char(c, r)) == after(p.push(c), r),
{
    if let Ok(t) = r {
        assert(p + (seq![c] + t) =~= p.push(c) + t);
    }
}

/// A decoded string has no more characters than it had bytes.
pub proof fn lemma_decode_length(s: Seq<u8>, i: int)
    requires
        0 <= i <= s.len(),
    ensures
        decode_java_string(s, i) matches Ok(t) ==> t.len() <= s.len() - i,
    decreases s.len() - i,
{
    if i < s.len() {
        lemma_decode_length(s, i + 1);
        if i + 2 <= s.len() {
            lemma_decode_length(s, i + 2);
        }
        if i + 3 <= s.len() {
            lemma_decode_length(s, i + 3);
        }
        if i + 6 <= s.len() {
            lemma_decode_length(s, i + 6);
        }
    }
}

/// Decodes a string of the constant pool, written in Java's modified UTF-8.
pub fn parse_java_string(bytes: &[u8]) -> (r: Result<Vec<char>, LoadError>)
    ensures
        match decode_java_string(bytes@, 0) {
            Ok(s) => r matches Ok(v) && v@ == s,
            Err(e) => r == Err::<Vec<char>, LoadError>(e),
        },
{
    let mut out: Vec<char> = Vec::new();
    let mut i: usize = 0;
    assert(after(out@, decode_java_string(bytes@, 0)) == decode_java_string(bytes@, 0)) by {
        if let Ok(t) = decode_java_string(bytes@, 0) {
            assert(out@ + t =~= t);
        }
    }
    while i < bytes.len()
        invariant
            i <= bytes@.len(),
            after(out@, decode_java_string(bytes@, i as int)) == decode_java_string(bytes@, 0),
        decreases bytes@.len() - i,
    {
        let b = bytes[i];
        if b == 0 {
            return Err(LoadError::ZeroByte);
        } else if b < 128 {
            proof {
                lemma_after_cons(out@, b as char, decode_java_string(bytes@, i + 1));
            }
            out.push(b as char);
            i = i + 1;
        } else if b & 0xE0 == 0xC0 {
            if i + 1 >= bytes.len() {
                return Err(LoadError::UnexpectedEndOfString);
            }
            let y = bytes[i + 1];
            let code: u16 = ((b as u16 & 0x1f) << 6u16) | (y as u16 & 0x3f);
            assert(code == two_byte_code(b, y));
            match char_from_u32(code as u32) {
                Some(c) => {
                    assert(c == code as char);
                    proof {
                        lemma_after_cons(out@, c, decode_java_string(bytes@, i + 2));
                    }
                    out.push(c);
                },
                None => {
                    return Err(LoadError::InvalidCharacterCode);
                },
            }
            i = i + 2;
        } else if b == 0xED && bytes.len() - i >= 6 && 0xA0 <= bytes[i + 1] && bytes[i + 1] <= 0xAF
            && bytes[i + 3] == 0xED && 0xB0 <= bytes[i + 4] && bytes[i + 4] <= 0xBF {
            let v = bytes[i + 1];
            let w = bytes[i + 2];
            let y = bytes[i + 4];
            let z = bytes[i + 5];
            let p1: u32 = (v as u32 & 0x0f) << 16u32;
            let p2: u32 = (w as u32 & 0x3f) << 10u32;
            let p3: u32 = (y as u32 & 0x0f) << 6u32;
            let p4: u32 = z as u32 & 0x3f;
            assert(p1 <= 0xF0000) by (bit_vector)
                requires
                    p1 == (v as u32 & 0x0f) << 16u32,
            ;
            assert(p2 <= 0xFC00) by (bit_vector)
                requires
                    p2 == (w as u32 & 0x3f) << 10u32,
            ;
            assert(p3 <= 0x3C0) by (bit_vector)
                requires
                    p3 == (y as u32 & 0x0f) << 6u32,
            ;
            assert(p4 <= 0x3F) by (bit_vector)
                requires
                    p4 == z as u32 & 0x3f,
            ;
            let code: u32 = 0x10000u32 + p1 + p2 + p3 + p4;
            assert(code == six_byte_code(v, w, y, z));
            match char_from_u32(code) {
                Some(c) => {
                    assert(c == code as char);
                    proof {
                        lemma_after_cons(out@, c, decode_java_string(bytes@, i + 6));
                    }
                    out.push(c);
                },
                None => {
                    return Err(LoadError::InvalidCharacterCode);
                },
            }
            i = i + 6;
        } else if b & 0xF0 == 0xE0 {
            if bytes.len() - i <= 2 {
                return Err(LoadError::UnexpectedEndOfString);
            }
            let y = bytes[i + 1];
            let z = bytes[i + 2];
            let code: u32 = ((b as u32 & 0xf) << 12u32) | ((y as u32 & 0x3f) << 6u32) | (z as u32
                & 0x3f);
            assert(code == three_byte_code(b, y, z));
            match char_from_u32(code) {
                Some(c) => {
                    assert(c == code as char);
                    proof {
                        lemma_after_cons(out@, c, decode_java_string(bytes@, i + 3));
                    }
                    out.push(c);
                },
                None => {
                    return Err(LoadError::InvalidCharacterCode);
                },
            }
            i = i + 3;
        } else {
            i = i + 1;
        }
    }
    assert(decode_java_string(bytes@, i as int) == Ok::<Seq<char>, LoadError>(seq![]));
    assert(out@ + seq![] =~= out@);
    Ok(out)
}


/// The position of the first `;` at or after `i`, or the end of `s`.
pub open spec fn class_name_end(s: Seq<char>, i: int) -> int
    decreases s.len() - i,
{
    if i < 0 || i >= s.len() {
        s.len() as int
    } else if s[i] == ';' {
        i
    } else {
        class_name_end(s, i + 1)
    }
}

proof fn lemma_class_name_end(s: Seq<char>, i: int)
    requires
        0 <= i <= s.len(),
    ensures
        i <= class_name_end(s, i) <= s.len(),
        class_name_end(s, i) < s.len() ==> s[class_name_end(s, i)] == ';',
        forall|k: int| i <= k < class_name_end(s, i) ==> s[k] != ';',
    decreases s.len() - i,
{
    if i < s.len() && s[i] != ';' {
        lemma_class_name_end(s, i + 1);
    }
}

/// The type that the descriptor characters of `s` at `i` denote, and the
/// position after it. An object type `L...;` runs to the first `;`, or to the
/// end of `s` where there is none.
pub open spec fn spec_field_type(s: Seq<char>, i: int) -> Result<(FieldTypeView, int), LoadError>
    decreases s.len() - i,
{
    if i < 0 || i >= s.len() {
        Err(LoadError::BadFieldType)
    } else {
        let c = s[i];
        if c == 'B' {
            Ok((FieldTypeView::Byte, i + 1))
        } else if c == 'C' {
            Ok((FieldTypeView::Char, i + 1))
        } else if c == 'D' {
            Ok((FieldTypeView::Double, i + 1))
        } else if c == 'F' {
            Ok((FieldTypeView::Float, i + 1))
        } else if c == 'I' {
            Ok((FieldTypeView::Int, i + 1))
        } else if c == 'J' {
            Ok((FieldTypeView::Long, i + 1))
        } else if c == 'S' {
            Ok((FieldTypeView::Short, i + 1))
        } else if c == 'Z' {
            Ok((FieldTypeView::Boolean, i + 1))
        } else if c == 'L' {
            let end = class_name_end(s, i + 1);
            let next = if end < s.len() { end + 1 } else { end };
            Ok((FieldTypeView::Object(s.subrange(i + 1, end)), next))
        } else if c == '[' {
            match spec_field_type(s, i + 1) {
                Ok((t, j)) => Ok((FieldTypeView::Array(Box::new(t)), j)),
                Err(e) => Err(e),
            }
        } else {
            Err(LoadError::BadFieldType)
        }
    }
}

/// A successful type parse moves forward and stays within the input.
pub proof fn lemma_field_type_advances(s: Seq<char>, i: int)
    ensures
        spec_field_type(s, i) matches Ok((_, j)) ==> 0 <= i < j <= s.len(),
    decreases s.len() - i,
{
    if 0 <= i < s.len() {
        if s[i] == 'L' {
            lemma_class_name_end(s, i + 1);
        } else if s[i] == '[' {
            lemma_field_type_advances(s, i + 1);
        }
    }
}

/// Parses the type descriptor in `chars` at `*pos` and moves past it.
pub fn parse_field_type(chars: &[char], pos: &mut usize) -> (r: Result<FieldType, LoadError>)
    ensures
        match spec_field_type(chars@, *old(pos) as int) {
            Ok((t, j)) => r matches Ok(v) && v@ == t && *final(pos) == j,
            Err(e) => r == Err::<FieldType, LoadError>(e),
        },
    decreases chars@.len() - *old(pos),
{
    if *pos >= chars.len() {
        return Err(LoadError::BadFieldType);
    }
    let c = chars[*pos];
    *pos = *pos + 1;
    if c == 'B' {
        Ok(FieldType::Byte)
    } else if c == 'C' {
        Ok(FieldType::Char)
    } else if c == 'D' {
        Ok(FieldType::Double)
    } else if c == 'F' {
        Ok(FieldType::Float)
    } else if c == 'I' {
        Ok(FieldType::Int)
    } else if c == 'J' {
        Ok(FieldType::Long)
    } else if c == 'S' {
        Ok(FieldType::Short)
    } else if c == 'Z' {
        Ok(FieldType::Boolean)
    } else if c == 'L' {
        let start = *pos;
        let mut class_buf: Vec<char> = Vec::new();
        proof {
            lemma_class_name_end(chars@, start as int);
        }
        while *pos < chars.len() && chars[*pos] != ';'
            invariant
                start <= *pos <= chars@.len(),
                *pos <= class_name_end(chars@, start as int),
                class_name_end(chars@, start as int) <= chars@.len(),
                class_name_end(chars@, start as int) < chars@.len() ==> chars@[class_name_end(
                    chars@,
                    start as int,
                )] == ';',
                forall|k: int| start <= k < class_name_end(chars@, start as int) ==> chars@[k] != ';',
                class_buf@ == chars@.subrange(start as int, *pos as int),
            decreases chars@.len() - *pos,
        {
            class_buf.push(chars[*pos]);
            *pos = *pos + 1;
            assert(class_buf@ =~= chars@.subrange(start as int, *pos as int));
        }
        if *pos < chars.len() {
            *pos = *pos + 1;
        }
        Ok(FieldType::Object(class_buf))
    } else if c == '[' {
        let inner = parse_field_type(chars, pos)?;
        Ok(FieldType::Array(Box::new(inner)))
    } else {
        Err(LoadError::BadFieldType)
    }
}

/// The number of 32-bit words that values of the given types take.
pub open spec fn sum_sizes(ts: Seq<FieldTypeView>) -> nat
    decreases ts.len(),
{
    if ts.len() == 0 {
        0
    } else {
        sum_sizes(ts.drop_last()) + ts.last().size()
    }
}

/// The parameter types in `s` from `i` up to the first `)`, and the position of that `)`.
pub open spec fn spec_parameters(s: Seq<char>, i: int) -> Result<(Seq<FieldTypeView>, int), LoadError>
    decreases s.len() - i,
{
    if 0 <= i < s.len() && s[i] == ')' {
        Ok((seq![], i))
    } else {
        match spec_field_type(s, i) {
            Ok((t, j)) => {
                proof {
                    lemma_field_type_advances(s, i);
                }
                match spec_parameters(s, j) {
                    Ok((ts, k)) => Ok((seq![t] + ts, k)),
                    Err(e) => Err(e),
                }
            },
            Err(e) => Err(e),
        }
    }
}

/// The descriptor that the method descriptor characters of `s` denote: `(`,
/// the parameter types, `)`, then `V` for `void` or the return type.
/// Characters after the descriptor are ignored.
pub open spec fn spec_method_descriptor(s: Seq<char>) -> Result<MethodDescriptorView, LoadError> {
    if s.len() == 0 || s[0] != '(' {
        Err(LoadError::ExpectedOpenParen)
    } else {
        match spec_parameters(s, 1) {
            Ok((params, close)) => {
                let after_close = close + 1;
                if 0 <= after_close < s.len() && s[after_close] == 'V' {
                    Ok(
                        MethodDescriptorView {
                            parameter_size: sum_sizes(params),
                            parameters: params,
                            return_type: None,
                        },
                    )
                } else {
                    match spec_field_type(s, after_close) {
                        Ok((t, _)) => Ok(
                            MethodDescriptorView {
                                parameter_size: sum_sizes(params),
                                parameters: params,
                                return_type: Some(t),
                            },
                        ),
                        Err(e) => Err(e),
                    }
                }
            },
            Err(e) => Err(e),
        }
    }
}

/// Parses a method descriptor such as `(ILjava/lang/String;)V`.
pub fn parse_method_descriptor(src: &[char]) -> (r: Result<MethodDescriptor, LoadError>)
    requires
        src@.len() <= usize::MAX / 2,
    ensures
        match spec_method_descriptor(src@) {
            Ok(d) => r matches Ok(v) && v@ == d,
            Err(e) => r == Err::<MethodDescriptor, LoadError>(e),
        },
{
    if src.len() == 0 || src[0] != '(' {
        return Err(LoadError::ExpectedOpenParen);
    }
    let mut pos: usize = 1;
    let mut parameters: Vec<FieldType> = Vec::new();
    let mut parameter_size: usize = 0;
    while !(pos < src.len() && src[pos] == ')')
        invariant
            1 <= pos <= src@.len(),
            src@.len() <= usize::MAX / 2,
            src@[0] == '(',
            parameter_size == sum_sizes(field_types_view(parameters@)),
            parameter_size <= 2 * pos,
            match spec_parameters(src@, 1) {
                Ok((ps, close)) => spec_parameters(src@, pos as int) matches Ok((rest, c2)) && c2
                    == close && ps == field_types_view(parameters@) + rest,
                Err(e) => spec_parameters(src@, pos as int) == Err::<
                    (Seq<FieldTypeView>, int),
                    LoadError,
                >(e),
            },
        decreases src@.len() - pos,
    {
        let ghost old_pos = pos;
        proof {
            lemma_field_type_advances(src@, pos as int);
        }
        let t = match parse_field_type(src, &mut pos) {
            Ok(t) => t,
            Err(e) => {
                assert(spec_parameters(src@, old_pos as int) == Err::<
                    (Seq<FieldTypeView>, int),
                    LoadError,
                >(e));
                assert(spec_parameters(src@, 1) == Err::<(Seq<FieldTypeView>, int), LoadError>(e));
                assert(spec_method_descriptor(src@) == Err::<MethodDescriptorView, LoadError>(e));
                return Err(e);
            },
        };
        let ghost old_params = field_types_view(parameters@);
        parameter_size = parameter_size + t.get_size();
        parameters.push(t);
        proof {
            assert(field_types_view(parameters@) =~= old_params.push(t@));
            assert(field_types_view(parameters@).drop_last() =~= old_params);
            if let Ok((ps, close)) = spec_parameters(src@, 1) {
                let rest = spec_parameters(src@, old_pos as int)->Ok_0.0;
                let rest2 = spec_parameters(src@, pos as int)->Ok_0.0;
                assert(rest == seq![t@] + rest2);
                assert(old_params + rest =~= field_types_view(parameters@) + rest2);
            }
        }
    }
    proof {
        if let Ok((ps, close)) = spec_parameters(src@, 1) {
            assert(ps =~= field_types_view(parameters@));
        }
    }
    pos = pos + 1;
    if pos < src.len() && src[pos] == 'V' {
        return Ok(MethodDescriptor { parameter_size, parameters, return_type: None });
    }
    let ret = parse_field_type(src, &mut pos)?;
    Ok(MethodDescriptor { parameter_size, parameters, return_type: Some(ret) })
}


/// The run-time constants that the first `k` raw entries of `pool` resolve
/// to; the first entry that fails to resolve gives the error.
pub open spec fn spec_cook_prefix(pool: Seq<RawConstantView>, k: nat) -> Result<Seq<ConstantView>, LoadError>
    decreases k,
{
    if k == 0 {
        Ok(seq![])
    } else {
        match spec_cook_prefix(pool, (k - 1) as nat) {
            Ok(cs) => match spec_cook(pool, pool[k - 1]) {
                Ok(c) => Ok(cs.push(c)),
                Err(e) => Err(e),
            },
            Err(e) => Err(e),
        }
    }
}

proof fn lemma_cook_prefix_err(pool: Seq<RawConstantView>, i: nat, n: nat)
    requires
        i < n,
        spec_cook_prefix(pool, i) is Ok,
        spec_cook(pool, pool[i as int]) is Err,
    ensures
        spec_cook_prefix(pool, n) == Err::<Seq<ConstantView>, LoadError>(spec_cook(pool, pool[i as int])->Err_0),
    decreases n - i,
{
    if i + 1 < n {
        lemma_cook_prefix_err(pool, i, (n - 1) as nat);
    }
}

/// Resolves every entry of a raw pool, in order.
pub fn cook_constants(raw: &Vec<RawConstant>) -> (r: Result<Vec<Constant>, LoadError>)
    requires
        short_strings(raw_pool_view(raw@)),
    ensures
        match spec_cook_prefix(raw_pool_view(raw@), raw@.len()) {
            Ok(cs) => r matches Ok(v) && constants_view(v@) == cs,
            Err(e) => r matches Err(e2) && e2 == e,
        },
{
    let ghost pool = raw_pool_view(raw@);
    let mut out: Vec<Constant> = Vec::new();
    let mut i: usize = 0;
    while i < raw.len()
        invariant
            i <= raw@.len(),
            pool == raw_pool_view(raw@),
            short_strings(pool),
            spec_cook_prefix(pool, i as nat) matches Ok(cs) && constants_view(out@) == cs,
        decreases raw@.len() - i,
    {
        let ghost before = out@;
        let c = match cook_constant(raw.as_slice(), &raw[i]) {
            Ok(c) => c,
            Err(e) => {
                proof {
                    lemma_cook_prefix_err(pool, i as nat, raw@.len());
                }
                return Err(e);
            },
        };
        out.push(c);
        proof {
            assert(constants_view(out@) =~= constants_view(before).push(c@));
        }
        i = i + 1;
    }
    Ok(out)
}

/// The interface that the index at `q` names through the raw pool.
pub open spec fn interface_item(raw: Seq<RawConstantView>, b: Seq<u8>) -> spec_fn(int) -> Result<
    (Seq<char>, int),
    LoadError,
> {
    |q: int|
        if q < 0 || q + 2 > b.len() {
            Err(LoadError::UnexpectedEof)
        } else {
            match spec_raw_class(raw, be16(b, q)) {
                Ok(c) => Ok((c, q + 2)),
                Err(e) => Err(e),
            }
        }
}

/// Reads `n` interface indices at `*pos`, resolving each through the raw pool.
pub fn parse_interfaces(raw: &Vec<RawConstant>, bytes: &[u8], pos: &mut usize, n: u16) -> (r: Result<
    Vec<Vec<char>>,
    LoadError,
>)
    ensures
        match spec_repeat(interface_item(raw_pool_view(raw@), bytes@), *old(pos) as int, n as nat) {
            Ok((cs, q)) => r matches Ok(v) && names_view(v@) == cs && *final(pos) == q,
            Err(e) => r matches Err(e2) && e2 == e,
        },
{
    let ghost p0 = *pos as int;
    let ghost item = interface_item(raw_pool_view(raw@), bytes@);
    let mut out: Vec<Vec<char>> = Vec::new();
    let mut i: u16 = 0;
    while i < n
        invariant
            i <= n,
            p0 == *old(pos) as int,
            item == interface_item(raw_pool_view(raw@), bytes@),
            spec_repeat(item, p0, i as nat) matches Ok((cs, q)) && names_view(out@) == cs && *pos
                == q,
        decreases n - i,
    {
        let ghost before = out@;
        let ghost q = *pos as int;
        let idx = match get_u16(bytes, pos) {
            Ok(x) => x,
            Err(e) => {
                proof {
                    lemma_repeat_err(item, p0, i as nat, n as nat);
                }
                return Err(e);
            },
        };
        let c = match raw_class_index(raw.as_slice(), idx as usize) {
            Ok(c) => c,
            Err(e) => {
                proof {
                    lemma_repeat_err(item, p0, i as nat, n as nat);
                }
                return Err(e);
            },
        };
        out.push(c);
        proof {
            assert(names_view(out@) =~= names_view(before).push(out@.last()@));
        }
        i = i + 1;
    }
    Ok(out)
}

/// The static value that a field's `ConstantValue` attribute data `d` gives:
/// two bytes holding an index into the run-time pool, counted from 0.
pub open spec fn spec_constant_value(cs: Seq<ConstantView>, d: Seq<u8>) -> Result<ConstantView, LoadError> {
    if d.len() != 2 {
        Err(LoadError::ConstantValueLength)
    } else {
        let idx = d[0] as int * 0x100 + d[1] as int;
        if idx < cs.len() {
            Ok(cs[idx])
        } else {
            Err(LoadError::ConstantValueIndex)
        }
    }
}

/// The field at `p`: access flags, name index, descriptor index and
/// attribute count, then the attributes; and the position after it. Only a
/// static field keeps the value of its `ConstantValue` attribute.
pub open spec fn spec_field(raw: Seq<RawConstantView>, cs: Seq<ConstantView>, b: Seq<u8>, p: int) -> Result<
    (FieldView, int),
    LoadError,
> {
    if p < 0 || p + 8 > b.len() {
        Err(LoadError::UnexpectedEof)
    } else {
        let access = be16(b, p) as u16;
        match spec_raw_str(raw, be16(b, p + 2)) {
            Err(e) => Err(e),
            Ok(name) => match spec_raw_str(raw, be16(b, p + 4)) {
                Err(e) => Err(e),
                Ok(desc) => match spec_field_type(desc, 0) {
                    Err(e) => Err(e),
                    Ok((descriptor, _)) => match spec_attributes(cs, b, p + 8, be16(b, p + 6) as nat) {
                        Err(e) => Err(e),
                        Ok((attrs, q)) => match spec_single_attribute(
                            attrs,
                            spec_attribute_name(AttributeName::ConstantValue),
                        ) {
                            Err(e) => Err(e),
                            Ok((cv, attrs2)) => {
                                let constant_value: Result<Option<ConstantView>, LoadError> = if access
                                    & 0x0008 != 0 {
                                    match cv {
                                        Some(d) => match spec_constant_value(cs, d) {
                                            Ok(c) => Ok(Some(c)),
                                            Err(e) => Err(e),
                                        },
                                        None => Ok(None),
                                    }
                                } else {
                                    Ok(None)
                                };
                                match constant_value {
                                    Err(e) => Err(e),
                                    Ok(constant_value) => match spec_signature(cs, attrs2) {
                                        Err(e) => Err(e),
                                        Ok((signature, attributes)) => Ok(
                                            (
                                                FieldView {
                                                    access_flags: access,
                                                    name,
                                                    descriptor,
                                                    constant_value,
                                                    signature,
                                                    attributes,
                                                },
                                                q,
                                            ),
                                        ),
                                    },
                                }
                            },
                        },
                    },
                },
            },
        }
    }
}

/// Reads the field at `*pos` and moves past it.
pub fn parse_field(raw: &Vec<RawConstant>, constants: &Vec<Constant>, bytes: &[u8], pos: &mut usize) -> (r: Result<
    Field,
    LoadError,
>)
    ensures
        match spec_field(raw_pool_view(raw@), constants_view(constants@), bytes@, *old(pos) as int) {
            Ok((f, q)) => r matches Ok(v) && v@ == f && *final(pos) == q,
            Err(e) => r matches Err(e2) && e2 == e,
        },
{
    if *pos > bytes.len() || bytes.len() - *pos < 8 {
        return Err(LoadError::UnexpectedEof);
    }
    let access_flags = get_u16(bytes, pos)?;
    let name_idx = get_u16(bytes, pos)?;
    let descriptor_idx = get_u16(bytes, pos)?;
    let attrs_count = get_u16(bytes, pos)?;
    let access_flags = AccessFlags(access_flags);
    let name = raw_str_index(raw.as_slice(), name_idx as usize)?;
    let desc = raw_str_index(raw.as_slice(), descriptor_idx as usize)?;
    let mut dpos: usize = 0;
    let descriptor = parse_field_type(desc.as_slice(), &mut dpos)?;
    let attributes = get_attributes(constants.as_slice(), bytes, pos, attrs_count)?;
    let cv_name = attribute_name(AttributeName::ConstantValue);
    let (constant_value, attributes) = single_attribute(&attributes, cv_name.as_slice())?;
    let constant_value = if access_flags.is_static() {
        match constant_value {
            Some(d) => {
                if d.len() != 2 {
                    return Err(LoadError::ConstantValueLength);
                }
                let idx = (d[0] as usize) * 0x100 + d[1] as usize;
                if idx >= constants.len() {
                    return Err(LoadError::ConstantValueIndex);
                }
                Some(constants[idx].copy())
            },
            None => None,
        }
    } else {
        None
    };
    let (signature, attributes) = get_signature(constants.as_slice(), &attributes)?;
    Ok(Field { access_flags, name, descriptor, constant_value, signature, attributes })
}

/// The exception classes that an `Exceptions` attribute's data `d` names.
pub open spec fn spec_exceptions(cs: Seq<ConstantView>, d: Seq<u8>) -> Result<Seq<Seq<char>>, LoadError> {
    if d.len() < 2 {
        Err(LoadError::UnexpectedEof)
    } else {
        match spec_repeat(exception_item(cs, d), 2, be16(d, 0) as nat) {
            Ok((es, _)) => Ok(es),
            Err(e) => Err(e),
        }
    }
}

/// The class that the index at `q` of an `Exceptions` attribute names.
pub open spec fn exception_item(cs: Seq<ConstantView>, d: Seq<u8>) -> spec_fn(int) -> Result<
    (Seq<char>, int),
    LoadError,
> {
    |q: int|
        if q < 0 || q + 2 > d.len() {
            Err(LoadError::UnexpectedEof)
        } else {
            match spec_class(cs, be16(d, q)) {
                Ok(c) => Ok((c, q + 2)),
                Err(e) => Err(e),
            }
        }
}

/// Reads the exception classes of an `Exceptions` attribute.
pub fn parse_exceptions(constants: &Vec<Constant>, d: &[u8]) -> (r: Result<Vec<Vec<char>>, LoadError>)
    ensures
        match spec_exceptions(constants_view(constants@), d@) {
            Ok(es) => r matches Ok(v) && names_view(v@) == es,
            Err(e) => r matches Err(e2) && e2 == e,
        },
{
    let mut pos: usize = 0;
    let n = get_u16(d, &mut pos)?;
    let ghost item = exception_item(constants_view(constants@), d@);
    let mut out: Vec<Vec<char>> = Vec::new();
    let mut i: u16 = 0;
    while i < n
        invariant
            i <= n,
            n == be16(d@, 0),
            d@.len() >= 2,
            item == exception_item(constants_view(constants@), d@),
            spec_repeat(item, 2, i as nat) matches Ok((es, q)) && names_view(out@) == es && pos == q,
        decreases n - i,
    {
        let ghost before = out@;
        let idx = match get_u16(d, &mut pos) {
            Ok(x) => x,
            Err(e) => {
                proof {
                    lemma_repeat_err(item, 2, i as nat, n as nat);
                }
                return Err(e);
            },
        };
        let c = match class_index(constants.as_slice(), idx as usize) {
            Ok(c) => c,
            Err(e) => {
                proof {
                    lemma_repeat_err(item, 2, i as nat, n as nat);
                }
                return Err(e);
            },
        };
        out.push(c);
        proof {
            assert(names_view(out@) =~= names_view(before).push(out@.last()@));
        }
        i = i + 1;
    }
    Ok(out)
}


/// The method at `p`: access flags, name index, descriptor index and
/// attribute count, then the attributes; and the position after it. An
/// abstract method must have no `Code` attribute and any other method one.
pub open spec fn spec_method(raw: Seq<RawConstantView>, cs: Seq<ConstantView>, b: Seq<u8>, p: int) -> Result<
    (RawMethodView, int),
    LoadError,
> {
    if p < 0 || p + 8 > b.len() {
        Err(LoadError::UnexpectedEof)
    } else {
        let access = be16(b, p) as u16;
        match spec_raw_str(raw, be16(b, p + 2)) {
            Err(e) => Err(e),
            Ok(name) => match spec_raw_str(raw, be16(b, p + 4)) {
                Err(e) => Err(e),
                Ok(desc) => match spec_method_descriptor(desc) {
                    Err(e) => Err(e),
                    Ok(descriptor) => match spec_attributes(cs, b, p + 8, be16(b, p + 6) as nat) {
                        Err(e) => Err(e),
                        Ok((attrs, q)) => match spec_single_attribute(
                            attrs,
                            spec_attribute_name(AttributeName::Code),
                        ) {
                            Err(e) => Err(e),
                            Ok((code_attr, attrs2)) => {
                                let is_abstract = access & 0x0400 != 0;
                                let code: Result<RawCodeView, LoadError> = match code_attr {
                                    None => if is_abstract {
                                        Ok(RawCodeView::Abstract)
                                    } else {
                                        Err(LoadError::MissingCode)
                                    },
                                    Some(d) => if is_abstract {
                                        Err(LoadError::AbstractWithCode)
                                    } else {
                                        Ok(RawCodeView::Code(d))
                                    },
                                };
                                match code {
                                    Err(e) => Err(e),
                                    Ok(code) => match spec_single_attribute(
                                        attrs2,
                                        spec_attribute_name(AttributeName::Exceptions),
                                    ) {
                                        Err(e) => Err(e),
                                        Ok((exc, attrs3)) => {
                                            let exceptions: Result<Seq<Seq<char>>, LoadError> = match exc {
                                                Some(d) => spec_exceptions(cs, d),
                                                None => Ok(seq![]),
                                            };
                                            match exceptions {
                                                Err(e) => Err(e),
                                                Ok(exceptions) => match spec_signature(cs, attrs3) {
                                                    Err(e) => Err(e),
                                                    Ok((signature, attributes)) => Ok(
                                                        (
                                                            RawMethodView {
                                                                access_flags: access,
                                                                name,
                                                                exceptions,
                                                                descriptor,
                                                                code,
                                                                signature,
                                                                attributes,
                                                            },
                                                            q,
                                                        ),
                                                    ),
                                                },
                                            }
                                        },
                                    },
                                }
                            },
                        },
                    },
                },
            },
        }
    }
}

/// Reads the method at `*pos` and moves past it.
pub fn parse_method(raw: &Vec<RawConstant>, constants: &Vec<Constant>, bytes: &[u8], pos: &mut usize) -> (r: Result<
    RawMethod,
    LoadError,
>)
    requires
        short_strings(raw_pool_view(raw@)),
    ensures
        match spec_method(raw_pool_view(raw@), constants_view(constants@), bytes@, *old(pos) as int) {
            Ok((m, q)) => r matches Ok(v) && v@ == m && *final(pos) == q,
            Err(e) => r matches Err(e2) && e2 == e,
        },
{
    if *pos > bytes.len() || bytes.len() - *pos < 8 {
        return Err(LoadError::UnexpectedEof);
    }
    let access_flags = get_u16(bytes, pos)?;
    let name_idx = get_u16(bytes, pos)?;
    let descriptor_idx = get_u16(bytes, pos)?;
    let attrs_count = get_u16(bytes, pos)?;
    let access_flags = AccessFlags(access_flags);
    let name = raw_str_index(raw.as_slice(), name_idx as usize)?;
    let desc = raw_str_index(raw.as_slice(), descriptor_idx as usize)?;
    proof {
        let pool = raw_pool_view(raw@);
        let k = descriptor_idx as int;
        if 1 <= k <= pool.len() {
            assert(pool[k - 1] matches RawConstantView::String(s) ==> s.len() <= 0xFFFF);
        }
    }
    let descriptor = parse_method_descriptor(desc.as_slice())?;
    let attributes = get_attributes(constants.as_slice(), bytes, pos, attrs_count)?;
    let code_name = attribute_name(AttributeName::Code);
    let (code_attr, attributes) = single_attribute(&attributes, code_name.as_slice())?;
    let is_abstract = access_flags.is_abstract();
    let code = match code_attr {
        None => if is_abstract {
            RawCode::Abstract
        } else {
            return Err(LoadError::MissingCode);
        },
        Some(d) => if is_abstract {
            return Err(LoadError::AbstractWithCode);
        } else {
            RawCode::Code(d)
        },
    };
    let exc_name = attribute_name(AttributeName::Exceptions);
    let (exc, attributes) = single_attribute(&attributes, exc_name.as_slice())?;
    let exceptions = match exc {
        Some(d) => parse_exceptions(constants, d.as_slice())?,
        None => {
            let v: Vec<Vec<char>> = Vec::new();
            assert(names_view(v@) =~= Seq::<Seq<char>>::empty());
            v
        },
    };
    let (signature, attributes) = get_signature(constants.as_slice(), &attributes)?;
    Ok(RawMethod { access_flags, name, exceptions, descriptor, code, signature, attributes })
}


/// The run-time constant that the index at `q` names.
pub open spec fn arg_item(cs: Seq<ConstantView>, d: Seq<u8>) -> spec_fn(int) -> Result<
    (ConstantView, int),
    LoadError,
> {
    |q: int|
        if q < 0 || q + 2 > d.len() {
            Err(LoadError::UnexpectedEof)
        } else if 1 <= be16(d, q) <= cs.len() {
            Ok((cs[be16(d, q) - 1], q + 2))
        } else {
            Err(LoadError::ConstantIndexOutOfRange)
        }
}

/// The bootstrap method at `q`: the index of a method handle, an argument
/// count, then the arguments' indices.
pub open spec fn bootstrap_item(cs: Seq<ConstantView>, d: Seq<u8>) -> spec_fn(int) -> Result<
    (BootstrapMethodView, int),
    LoadError,
> {
    |q: int|
        if q < 0 || q + 2 > d.len() {
            Err(LoadError::UnexpectedEof)
        } else if !(1 <= be16(d, q) <= cs.len()) {
            Err(LoadError::ConstantIndexOutOfRange)
        } else {
            match cs[be16(d, q) - 1] {
                ConstantView::MethodHandle(h) => if q + 4 > d.len() {
                    Err(LoadError::UnexpectedEof)
                } else {
                    match spec_repeat(arg_item(cs, d), q + 4, be16(d, q + 2) as nat) {
                        Ok((args, r)) => Ok((BootstrapMethodView { method: h, args }, r)),
                        Err(e) => Err(e),
                    }
                },
                _ => Err(LoadError::BootstrapNotMethodHandle),
            }
        }
}

/// The bootstrap methods of a `BootstrapMethods` attribute's data `d`.
pub open spec fn spec_bootstraps(cs: Seq<ConstantView>, d: Seq<u8>) -> Result<Seq<BootstrapMethodView>, LoadError> {
    if d.len() < 2 {
        Err(LoadError::UnexpectedEof)
    } else {
        match spec_repeat(bootstrap_item(cs, d), 2, be16(d, 0) as nat) {
            Ok((bs, _)) => Ok(bs),
            Err(e) => Err(e),
        }
    }
}

fn parse_bootstrap_args(constants: &Vec<Constant>, d: &[u8], pos: &mut usize, n: u16) -> (r: Result<
    Vec<Constant>,
    LoadError,
>)
    ensures
        match spec_repeat(arg_item(constants_view(constants@), d@), *old(pos) as int, n as nat) {
            Ok((args, q)) => r matches Ok(v) && constants_view(v@) == args && *final(pos) == q,
            Err(e) => r matches Err(e2) && e2 == e,
        },
{
    let ghost p0 = *pos as int;
    let ghost item = arg_item(constants_view(constants@), d@);
    let mut out: Vec<Constant> = Vec::new();
    let mut i: u16 = 0;
    while i < n
        invariant
            i <= n,
            p0 == *old(pos) as int,
            item == arg_item(constants_view(constants@), d@),
            spec_repeat(item, p0, i as nat) matches Ok((args, q)) && constants_view(out@) == args
                && *pos == q,
        decreases n - i,
    {
        let ghost before = out@;
        let idx = match get_u16(d, pos) {
            Ok(x) => x as usize,
            Err(e) => {
                proof {
                    lemma_repeat_err(item, p0, i as nat, n as nat);
                }
                return Err(e);
            },
        };
        if idx == 0 || idx > constants.len() {
            proof {
                lemma_repeat_err(item, p0, i as nat, n as nat);
            }
            return Err(LoadError::ConstantIndexOutOfRange);
        }
        let c = constants[idx - 1].copy();
        out.push(c);
        proof {
            assert(constants_view(out@) =~= constants_view(before).push(c@));
        }
        i = i + 1;
    }
    Ok(out)
}

/// Reads the bootstrap methods of a `BootstrapMethods` attribute.
pub fn parse_bootstrap_methods(constants: &Vec<Constant>, d: &[u8]) -> (r: Result<
    Vec<BootstrapMethod>,
    LoadError,
>)
    ensures
        match spec_bootstraps(constants_view(constants@), d@) {
            Ok(bs) => r matches Ok(v) && bootstraps_view(v@) == bs,
            Err(e) => r matches Err(e2) && e2 == e,
        },
{
    let mut pos: usize = 0;
    let n = get_u16(d, &mut pos)?;
    let ghost cs = constants_view(constants@);
    let ghost item = bootstrap_item(cs, d@);
    let mut out: Vec<BootstrapMethod> = Vec::new();
    let mut i: u16 = 0;
    while i < n
        invariant
            i <= n,
            n == be16(d@, 0),
            d@.len() >= 2,
            cs == constants_view(constants@),
            item == bootstrap_item(cs, d@),
            spec_repeat(item, 2, i as nat) matches Ok((bs, q)) && bootstraps_view(out@) == bs && pos
                == q,
        decreases n - i,
    {
        let ghost before = out@;
        let ghost q = pos as int;
        let method_ref = match get_u16(d, &mut pos) {
            Ok(x) => x as usize,
            Err(e) => {
                proof {
                    lemma_repeat_err(item, 2, i as nat, n as nat);
                }
                return Err(e);
            },
        };
        if method_ref == 0 || method_ref > constants.len() {
            proof {
                lemma_repeat_err(item, 2, i as nat, n as nat);
            }
            return Err(LoadError::ConstantIndexOutOfRange);
        }
        let method = match &constants[method_ref - 1] {
            Constant::MethodHandle(h) => h.copy(),
            _ => {
                proof {
                    lemma_repeat_err(item, 2, i as nat, n as nat);
                }
                return Err(LoadError::BootstrapNotMethodHandle);
            },
        };
        let num_args = match get_u16(d, &mut pos) {
            Ok(x) => x,
            Err(e) => {
                proof {
                    lemma_repeat_err(item, 2, i as nat, n as nat);
                }
                return Err(e);
            },
        };
        let args = match parse_bootstrap_args(constants, d, &mut pos, num_args) {
            Ok(a) => a,
            Err(e) => {
                proof {
                    lemma_repeat_err(item, 2, i as nat, n as nat);
                }
                return Err(e);
            },
        };
        let b = BootstrapMethod { method, args };
        out.push(b);
        proof {
            assert(bootstraps_view(out@) =~= bootstraps_view(before).push(b@));
        }
        i = i + 1;
    }
    Ok(out)
}

/// The class that an `InnerClasses` entry names by the index `idx`.
pub open spec fn spec_inner_class_ref(cs: Seq<ConstantView>, idx: int) -> Result<Seq<char>, LoadError> {
    if !(1 <= idx <= cs.len()) {
        Err(LoadError::ConstantIndexOutOfRange)
    } else {
        match cs[idx - 1] {
            ConstantView::ClassRef(c) => Ok(c),
            _ => Err(LoadError::InnerClassNotClassRef),
        }
    }
}

/// The `InnerClasses` entry at `q`: inner class index, outer class index
/// (0: none), name index (0: none) and flags.
pub open spec fn inner_class_item(cs: Seq<ConstantView>, d: Seq<u8>) -> spec_fn(int) -> Result<
    (InnerClassView, int),
    LoadError,
> {
    |q: int|
        if q < 0 || q + 8 > d.len() {
            Err(LoadError::UnexpectedEof)
        } else {
            match spec_inner_class_ref(cs, be16(d, q)) {
                Err(e) => Err(e),
                Ok(this) => {
                    let outer_idx = be16(d, q + 2);
                    let outer: Result<Option<Seq<char>>, LoadError> = if outer_idx == 0 {
                        Ok(None)
                    } else {
                        match spec_inner_class_ref(cs, outer_idx) {
                            Ok(c) => Ok(Some(c)),
                            Err(e) => Err(e),
                        }
                    };
                    match outer {
                        Err(e) => Err(e),
                        Ok(outer) => {
                            let name_idx = be16(d, q + 4);
                            let name: Result<Option<Seq<char>>, LoadError> = if name_idx == 0 {
                                Ok(None)
                            } else {
                                match spec_str(cs, name_idx) {
                                    Ok(c) => Ok(Some(c)),
                                    Err(e) => Err(e),
                                }
                            };
                            match name {
                                Err(e) => Err(e),
                                Ok(name) => Ok(
                                    (
                                        InnerClassView {
                                            this,
                                            outer,
                                            name,
                                            flags: be16(d, q + 6) as u16,
                                        },
                                        q + 8,
                                    ),
                                ),
                            }
                        },
                    }
                },
            }
        }
}

/// The entries of an `InnerClasses` attribute's data `d`.
pub open spec fn spec_inner_classes(cs: Seq<ConstantView>, d: Seq<u8>) -> Result<Seq<InnerClassView>, LoadError> {
    if d.len() < 2 {
        Err(LoadError::UnexpectedEof)
    } else {
        match spec_repeat(inner_class_item(cs, d), 2, be16(d, 0) as nat) {
            Ok((cs2, _)) => Ok(cs2),
            Err(e) => Err(e),
        }
    }
}

fn inner_class_ref(constants: &Vec<Constant>, idx: usize) -> (r: Result<Vec<char>, LoadError>)
    ensures
        match spec_inner_class_ref(constants_view(constants@), idx as int) {
            Ok(c) => r matches Ok(v) && v@ == c,
            Err(e) => r matches Err(e2) && e2 == e,
        },
{
    if idx == 0 || idx > constants.len() {
        return Err(LoadError::ConstantIndexOutOfRange);
    }
    match &constants[idx - 1] {
        Constant::ClassRef(c) => Ok(copy_chars(c)),
        _ => Err(LoadError::InnerClassNotClassRef),
    }
}

fn parse_inner_class(constants: &Vec<Constant>, d: &[u8], pos: &mut usize) -> (r: Result<
    InnerClass,
    LoadError,
>)
    ensures
        match (inner_class_item(constants_view(constants@), d@))(*old(pos) as int) {
            Ok((c, q)) => r matches Ok(v) && v@ == c && *final(pos) == q,
            Err(e) => r matches Err(e2) && e2 == e,
        },
{
    if *pos > d.len() || d.len() - *pos < 8 {
        return Err(LoadError::UnexpectedEof);
    }
    let this_idx = get_u16(d, pos)? as usize;
    let outer_idx = get_u16(d, pos)? as usize;
    let name_idx = get_u16(d, pos)? as usize;
    let flags = get_u16(d, pos)?;
    let this = inner_class_ref(constants, this_idx)?;
    let outer = if outer_idx == 0 {
        None
    } else {
        Some(inner_class_ref(constants, outer_idx)?)
    };
    let name = if name_idx == 0 {
        None
    } else {
        Some(str_index(constants.as_slice(), name_idx)?)
    };
    Ok(InnerClass { this, outer, name, flags: AccessFlags(flags) })
}

/// Reads the entries of an `InnerClasses` attribute.
pub fn parse_inner_classes(constants: &Vec<Constant>, d: &[u8]) -> (r: Result<
    Vec<InnerClass>,
    LoadError,
>)
    ensures
        match spec_inner_classes(constants_view(constants@), d@) {
            Ok(ics) => r matches Ok(v) && inner_classes_view(v@) == ics,
            Err(e) => r matches Err(e2) && e2 == e,
        },
{
    let mut pos: usize = 0;
    let n = get_u16(d, &mut pos)?;
    let ghost item = inner_class_item(constants_view(constants@), d@);
    let mut out: Vec<InnerClass> = Vec::new();
    let mut i: u16 = 0;
    while i < n
        invariant
            i <= n,
            n == be16(d@, 0),
            d@.len() >= 2,
            item == inner_class_item(constants_view(constants@), d@),
            spec_repeat(item, 2, i as nat) matches Ok((ics, q)) && inner_classes_view(out@) == ics
                && pos == q,
        decreases n - i,
    {
        let ghost before = out@;
        let c = match parse_inner_class(constants, d, &mut pos) {
            Ok(c) => c,
            Err(e) => {
                proof {
                    lemma_repeat_err(item, 2, i as nat, n as nat);
                }
                return Err(e);
            },
        };
        out.push(c);
        proof {
            assert(inner_classes_view(out@) =~= inner_classes_view(before).push(c@));
        }
        i = i + 1;
    }
    Ok(out)
}


/// Whether a field is static.
pub open spec fn is_static_field(f: FieldView) -> bool {
    f.access_flags & 0x0008 != 0
}

/// The static fields of a list, in order.
pub open spec fn static_fields(fs: Seq<FieldView>) -> Seq<FieldView>
    decreases fs.len(),
{
    if fs.len() == 0 {
        seq![]
    } else if is_static_field(fs.last()) {
        static_fields(fs.drop_last()).push(fs.last())
    } else {
        static_fields(fs.drop_last())
    }
}

/// The instance fields of a list, in order.
pub open spec fn instance_fields(fs: Seq<FieldView>) -> Seq<FieldView>
    decreases fs.len(),
{
    if fs.len() == 0 {
        seq![]
    } else if !is_static_field(fs.last()) {
        instance_fields(fs.drop_last()).push(fs.last())
    } else {
        instance_fields(fs.drop_last())
    }
}

/// The number of 32-bit words that the fields take.
pub open spec fn total_size(fs: Seq<FieldView>) -> nat
    decreases fs.len(),
{
    if fs.len() == 0 {
        0
    } else {
        total_size(fs.drop_last()) + fs.last().descriptor.size()
    }
}

/// Each field with its position: the words of the fields before it.
pub open spec fn placed(fs: Seq<FieldView>) -> Seq<(FieldView, usize)>
    decreases fs.len(),
{
    if fs.len() == 0 {
        seq![]
    } else {
        placed(fs.drop_last()).push((fs.last(), total_size(fs.drop_last()) as usize))
    }
}

/// The initial words of a static field: its constant value's, or zeros.
pub open spec fn field_words(f: FieldView) -> Seq<u32> {
    match f.constant_value {
        Some(c) => constant_words(c),
        None => Seq::new(f.descriptor.size(), |i: int| 0u32),
    }
}

/// The initial words of the static fields, one after another.
pub open spec fn static_words(fs: Seq<FieldView>) -> Seq<u32>
    decreases fs.len(),
{
    if fs.len() == 0 {
        seq![]
    } else {
        static_words(fs.drop_last()) + field_words(fs.last())
    }
}

/// The layout of a class's fields: the instance fields with their positions
/// and their size, the static fields with their positions and their initial
/// words. Refused when a static field's constant does not fill it exactly.
pub open spec fn spec_layout(fs: Seq<FieldView>) -> Result<
    (Seq<(FieldView, usize)>, nat, Seq<(FieldView, usize)>, Seq<u32>),
    LoadError,
> {
    let inst = instance_fields(fs);
    let st = static_fields(fs);
    if static_words(st).len() != total_size(st) {
        Err(LoadError::StaticDataSize)
    } else {
        Ok((placed(inst), total_size(inst), placed(st), static_words(st)))
    }
}

proof fn lemma_size_bound(fs: Seq<FieldView>)
    ensures
        total_size(fs) <= 2 * fs.len(),
        static_fields(fs).len() <= fs.len(),
        instance_fields(fs).len() <= fs.len(),
    decreases fs.len(),
{
    if fs.len() > 0 {
        lemma_size_bound(fs.drop_last());
    }
}

proof fn lemma_words_bound(fs: Seq<FieldView>)
    ensures
        static_words(fs).len() <= 2 * fs.len(),
    decreases fs.len(),
{
    if fs.len() > 0 {
        lemma_words_bound(fs.drop_last());
    }
}

/// The initial words of one static field.
fn initial_words(f: &Field) -> (r: Vec<u32>)
    ensures
        r@ == field_words(f@),
{
    match &f.constant_value {
        Some(c) => c.bytes(),
        None => {
            let n = f.descriptor.get_size();
            let mut v: Vec<u32> = Vec::new();
            while v.len() < n
                invariant
                    n <= 2,
                    v@.len() <= n,
                    forall|i: int| 0 <= i < v@.len() ==> v@[i] == 0u32,
                decreases n - v@.len(),
            {
                v.push(0u32);
            }
            assert(v@ =~= Seq::new(f@.descriptor.size(), |i: int| 0u32));
            v
        },
    }
}

/// Lays out a class's fields (see `spec_layout`).
pub fn layout_fields(fields: Vec<Field>) -> (r: Result<
    (Vec<(Field, usize)>, usize, Vec<(Field, usize)>, Vec<u32>),
    LoadError,
>)
    requires
        fields@.len() <= 0xFFFF,
    ensures
        match spec_layout(fields@.map_values(|f: Field| f@)) {
            Ok((inst, size, st, words)) => r matches Ok((i, s, t, w)) && placed_fields_view(i@)
                == inst && s == size && placed_fields_view(t@) == st && w@ == words,
            Err(e) => r matches Err(e2) && e2 == e,
        },
{
    let ghost all = fields@.map_values(|f: Field| f@);
    let mut fields = fields;
    let mut inst: Vec<(Field, usize)> = Vec::new();
    let mut st: Vec<(Field, usize)> = Vec::new();
    let mut field_size: usize = 0;
    let mut statics_size: usize = 0;
    let mut static_data: Vec<u32> = Vec::new();
    let mut done: usize = 0;
    let n = fields.len();
    while fields.len() > 0
        invariant
            fields@.len() + done == all.len(),
            all.len() <= 0xFFFF,
            fields@.map_values(|f: Field| f@) == all.subrange(done as int, all.len() as int),
            placed_fields_view(inst@) == placed(instance_fields(all.subrange(0, done as int))),
            field_size == total_size(instance_fields(all.subrange(0, done as int))),
            placed_fields_view(st@) == placed(static_fields(all.subrange(0, done as int))),
            statics_size == total_size(static_fields(all.subrange(0, done as int))),
            static_data@ == static_words(static_fields(all.subrange(0, done as int))),
        decreases fields@.len(),
    {
        let ghost rest = fields@;
        let ghost pre = all.subrange(0, done as int);
        let ghost pre2 = all.subrange(0, done + 1);
        let f = fields.remove(0);
        proof {
            assert(fields@ =~= rest.subrange(1, rest.len() as int));
            assert(rest.map_values(|f: Field| f@)[0] == all[done as int]);
            assert(f@ == all[done as int]);
            assert(pre2.drop_last() =~= pre);
            assert(pre2.last() == f@);
            assert(fields@.map_values(|f: Field| f@) =~= all.subrange(done + 1, all.len() as int)) by {
                assert forall|j: int| 0 <= j < fields@.len() implies #[trigger] fields@[j]@
                    == all[done + 1 + j] by {
                    assert(fields@[j] == rest[j + 1]);
                    assert(rest.map_values(|f: Field| f@)[j + 1] == all[done + 1 + j]);
                }
            }
            lemma_size_bound(pre);
            lemma_size_bound(static_fields(pre));
            lemma_size_bound(instance_fields(pre));
            lemma_words_bound(static_fields(pre));
        }
        let size = f.descriptor.get_size();
        proof {
            let sp = static_fields(pre);
            let ip = instance_fields(pre);
            assert(sp.push(f@).drop_last() =~= sp);
            assert(ip.push(f@).drop_last() =~= ip);
            if is_static_field(f@) {
                assert(static_fields(pre2) == sp.push(f@));
                assert(instance_fields(pre2) == ip);
            } else {
                assert(static_fields(pre2) == sp);
                assert(instance_fields(pre2) == ip.push(f@));
            }
        }
        if f.access_flags.is_static() {
            let words = initial_words(&f);
            let ghost d0 = static_data@;
            let mut k: usize = 0;
            while k < words.len()
                invariant
                    k <= words@.len(),
                    words@.len() <= 2,
                    static_data@ == d0 + words@.subrange(0, k as int),
                decreases words@.len() - k,
            {
                static_data.push(words[k]);
                k = k + 1;
                assert(static_data@ =~= d0 + words@.subrange(0, k as int));
            }
            assert(words@.subrange(0, words@.len() as int) =~= words@);
            let ghost st0 = placed_fields_view(st@);
            st.push((f, statics_size));
            proof {
                assert(placed_fields_view(st@) =~= st0.push((all[done as int], statics_size)));
            }
            statics_size = statics_size + size;
        } else {
            let ghost in0 = placed_fields_view(inst@);
            inst.push((f, field_size));
            proof {
                assert(placed_fields_view(inst@) =~= in0.push((all[done as int], field_size)));
            }
            field_size = field_size + size;
        }
        done = done + 1;
    }
    assert(all.subrange(0, all.len() as int) =~= all);
    if static_data.len() != statics_size {
        return Err(LoadError::StaticDataSize);
    }
    Ok((inst, field_size, st, static_data))
}


/// `spec_field` as an item reader.
pub open spec fn field_item(raw: Seq<RawConstantView>, cs: Seq<ConstantView>, b: Seq<u8>) -> spec_fn(int) -> Result<
    (FieldView, int),
    LoadError,
> {
    |q: int| spec_field(raw, cs, b, q)
}

/// `spec_method` as an item reader.
pub open spec fn method_item(raw: Seq<RawConstantView>, cs: Seq<ConstantView>, b: Seq<u8>) -> spec_fn(int) -> Result<
    (RawMethodView, int),
    LoadError,
> {
    |q: int| spec_method(raw, cs, b, q)
}

/// The view of each field of a list.
pub open spec fn fields_view(s: Seq<Field>) -> Seq<FieldView> {
    s.map_values(|f: Field| f@)
}

/// Reads `n` fields at `*pos` and moves past them.
pub fn parse_fields(raw: &Vec<RawConstant>, constants: &Vec<Constant>, bytes: &[u8], pos: &mut usize, n: u16) -> (r: Result<
    Vec<Field>,
    LoadError,
>)
    ensures
        match spec_repeat(
            field_item(raw_pool_view(raw@), constants_view(constants@), bytes@),
            *old(pos) as int,
            n as nat,
        ) {
            Ok((fs, q)) => r matches Ok(v) && fields_view(v@) == fs && *final(pos) == q,
            Err(e) => r matches Err(e2) && e2 == e,
        },
{
    let ghost p0 = *pos as int;
    let ghost item = field_item(raw_pool_view(raw@), constants_view(constants@), bytes@);
    let mut out: Vec<Field> = Vec::new();
    let mut i: u16 = 0;
    while i < n
        invariant
            i <= n,
            p0 == *old(pos) as int,
            item == field_item(raw_pool_view(raw@), constants_view(constants@), bytes@),
            spec_repeat(item, p0, i as nat) matches Ok((fs, q)) && fields_view(out@) == fs && *pos
                == q,
        decreases n - i,
    {
        let ghost before = out@;
        let f = match parse_field(raw, constants, bytes, pos) {
            Ok(f) => f,
            Err(e) => {
                proof {
                    lemma_repeat_err(item, p0, i as nat, n as nat);
                }
                return Err(e);
            },
        };
        out.push(f);
        proof {
            assert(fields_view(out@) =~= fields_view(before).push(out@.last()@));
        }
        i = i + 1;
    }
    Ok(out)
}

/// Reads `n` methods at `*pos` and moves past them.
pub fn parse_methods(raw: &Vec<RawConstant>, constants: &Vec<Constant>, bytes: &[u8], pos: &mut usize, n: u16) -> (r: Result<
    Vec<RawMethod>,
    LoadError,
>)
    requires
        short_strings(raw_pool_view(raw@)),
    ensures
        match spec_repeat(
            method_item(raw_pool_view(raw@), constants_view(constants@), bytes@),
            *old(pos) as int,
            n as nat,
        ) {
            Ok((ms, q)) => r matches Ok(v) && raw_methods_view(v@) == ms && *final(pos) == q,
            Err(e) => r matches Err(e2) && e2 == e,
        },
{
    let ghost p0 = *pos as int;
    let ghost item = method_item(raw_pool_view(raw@), constants_view(constants@), bytes@);
    let mut out: Vec<RawMethod> = Vec::new();
    let mut i: u16 = 0;
    while i < n
        invariant
            i <= n,
            p0 == *old(pos) as int,
            short_strings(raw_pool_view(raw@)),
            item == method_item(raw_pool_view(raw@), constants_view(constants@), bytes@),
            spec_repeat(item, p0, i as nat) matches Ok((ms, q)) && raw_methods_view(out@) == ms
                && *pos == q,
        decreases n - i,
    {
        let ghost before = out@;
        let m = match parse_method(raw, constants, bytes, pos) {
            Ok(m) => m,
            Err(e) => {
                proof {
                    lemma_repeat_err(item, p0, i as nat, n as nat);
                }
                return Err(e);
            },
        };
        out.push(m);
        proof {
            assert(raw_methods_view(out@) =~= raw_methods_view(before).push(out@.last()@));
        }
        i = i + 1;
    }
    Ok(out)
}

/// What a class's attributes give: its bootstrap methods, its signature, its
/// source file, its inner classes, and the attributes left over. A
/// `NestHost` attribute is checked and dropped.
pub open spec fn spec_class_attributes(cs: Seq<ConstantView>, attrs: Seq<AttributeView>) -> Result<
    (Seq<BootstrapMethodView>, Option<Seq<char>>, Option<Seq<char>>, Seq<InnerClassView>, Seq<AttributeView>),
    LoadError,
> {
    match spec_single_attribute(attrs, spec_attribute_name(AttributeName::BootstrapMethods)) {
        Err(e) => Err(e),
        Ok((bm, a1)) => {
            let bootstraps: Result<Seq<BootstrapMethodView>, LoadError> = match bm {
                Some(d) => spec_bootstraps(cs, d),
                None => Ok(seq![]),
            };
            match bootstraps {
                Err(e) => Err(e),
                Ok(bootstraps) => match spec_signature(cs, a1) {
                    Err(e) => Err(e),
                    Ok((signature, a2)) => match spec_single_attribute(
                        a2,
                        spec_attribute_name(AttributeName::SourceFile),
                    ) {
                        Err(e) => Err(e),
                        Ok((sf, a3)) => {
                            let source: Result<Option<Seq<char>>, LoadError> = match sf {
                                Some(d) => if d.len() < 2 {
                                    Err(LoadError::UnexpectedEof)
                                } else {
                                    match spec_str(cs, be16(d, 0)) {
                                        Ok(s) => Ok(Some(s)),
                                        Err(e) => Err(e),
                                    }
                                },
                                None => Ok(None),
                            };
                            match source {
                                Err(e) => Err(e),
                                Ok(source) => match spec_single_attribute(
                                    a3,
                                    spec_attribute_name(AttributeName::InnerClasses),
                                ) {
                                    Err(e) => Err(e),
                                    Ok((ic, a4)) => {
                                        let inner: Result<Seq<InnerClassView>, LoadError> = match ic {
                                            Some(d) => spec_inner_classes(cs, d),
                                            None => Ok(seq![]),
                                        };
                                        match inner {
                                            Err(e) => Err(e),
                                            Ok(inner) => match spec_single_attribute(
                                                a4,
                                                spec_attribute_name(AttributeName::NestHost),
                                            ) {
                                                Err(e) => Err(e),
                                                Ok((nh, a5)) => {
                                                    let host: Result<(), LoadError> = match nh {
                                                        Some(d) => if d.len() < 2 {
                                                            Err(LoadError::UnexpectedEof)
                                                        } else {
                                                            match spec_class(cs, be16(d, 0)) {
                                                                Ok(_) => Ok(()),
                                                                Err(e) => Err(e),
                                                            }
                                                        },
                                                        None => Ok(()),
                                                    };
                                                    match host {
                                                        Err(e) => Err(e),
                                                        Ok(_) => Ok((bootstraps, signature, source, inner, a5)),
                                                    }
                                                },
                                            },
                                        }
                                    },
                                },
                            }
                        },
                    },
                },
            }
        },
    }
}

/// Takes a class's attributes apart (see `spec_class_attributes`).
pub fn class_attributes(constants: &Vec<Constant>, attributes: &Vec<Attribute>) -> (r: Result<
    (Vec<BootstrapMethod>, Option<Vec<char>>, Option<Vec<char>>, Vec<InnerClass>, Vec<Attribute>),
    LoadError,
>)
    ensures
        match spec_class_attributes(constants_view(constants@), attributes_view(attributes@)) {
            Ok((bs, sig, src, ics, rest)) => r matches Ok((b, g, s, i, a)) && bootstraps_view(b@) == bs
                && crate::raw_class::opt_chars_view(g) == sig && crate::raw_class::opt_chars_view(s)
                == src && inner_classes_view(i@) == ics && attributes_view(a@) == rest,
            Err(e) => r matches Err(e2) && e2 == e,
        },
{
    let bm_name = attribute_name(AttributeName::BootstrapMethods);
    let (bm, attributes) = single_attribute(attributes, bm_name.as_slice())?;
    let bootstrap_methods = match bm {
        Some(d) => parse_bootstrap_methods(constants, d.as_slice())?,
        None => {
            let v: Vec<BootstrapMethod> = Vec::new();
            assert(bootstraps_view(v@) =~= Seq::<BootstrapMethodView>::empty());
            v
        },
    };
    let (signature, attributes) = get_signature(constants.as_slice(), &attributes)?;
    let sf_name = attribute_name(AttributeName::SourceFile);
    let (sf, attributes) = single_attribute(&attributes, sf_name.as_slice())?;
    let source_file = match sf {
        Some(d) => {
            let mut p: usize = 0;
            let idx = get_u16(d.as_slice(), &mut p)?;
            Some(str_index(constants.as_slice(), idx as usize)?)
        },
        None => None,
    };
    let ic_name = attribute_name(AttributeName::InnerClasses);
    let (ic, attributes) = single_attribute(&attributes, ic_name.as_slice())?;
    let inner_classes = match ic {
        Some(d) => parse_inner_classes(constants, d.as_slice())?,
        None => {
            let v: Vec<InnerClass> = Vec::new();
            assert(inner_classes_view(v@) =~= Seq::<InnerClassView>::empty());
            v
        },
    };
    let nh_name = attribute_name(AttributeName::NestHost);
    let (nh, attributes) = single_attribute(&attributes, nh_name.as_slice())?;
    match nh {
        Some(d) => {
            let mut p: usize = 0;
            let idx = get_u16(d.as_slice(), &mut p)?;
            let _host = class_index(constants.as_slice(), idx as usize)?;
        },
        None => {},
    }
    Ok((bootstrap_methods, signature, source_file, inner_classes, attributes))
}


/// The header of a class file: the magic number `0xCAFEBABE`, the minor and
/// major versions, and the constant-pool count.
pub open spec fn spec_header(b: Seq<u8>) -> Result<(u16, u16, u16), LoadError> {
    if b.len() < 4 {
        Err(LoadError::UnexpectedEof)
    } else if be32(b, 0) != 0xCAFE_BABE {
        Err(LoadError::InvalidHeader)
    } else if b.len() < 10 {
        Err(LoadError::UnexpectedEof)
    } else {
        Ok((be16(b, 4) as u16, be16(b, 6) as u16, be16(b, 8) as u16))
    }
}

/// The class's access flags, its name and its superclass's (through the raw
/// pool), and its interfaces; and the position after them.
pub open spec fn spec_class_info(raw: Seq<RawConstantView>, b: Seq<u8>, p: int) -> Result<
    (u16, Seq<char>, Seq<char>, Seq<Seq<char>>, int),
    LoadError,
> {
    if p < 0 || p + 8 > b.len() {
        Err(LoadError::UnexpectedEof)
    } else {
        match spec_raw_class(raw, be16(b, p + 2)) {
            Err(e) => Err(e),
            Ok(this) => match spec_raw_class(raw, be16(b, p + 4)) {
                Err(e) => Err(e),
                Ok(super_class) => match spec_repeat(interface_item(raw, b), p + 8, be16(b, p + 6) as nat) {
                    Err(e) => Err(e),
                    Ok((interfaces, q)) => Ok((be16(b, p) as u16, this, super_class, interfaces, q)),
                },
            },
        }
    }
}

/// A `u16` count at `p`, then that many items.
pub open spec fn spec_counted<T>(item: spec_fn(int) -> Result<(T, int), LoadError>, b: Seq<u8>, p: int) -> Result<
    (Seq<T>, int),
    LoadError,
> {
    if p < 0 || p + 2 > b.len() {
        Err(LoadError::UnexpectedEof)
    } else {
        spec_repeat(item, p + 2, be16(b, p) as nat)
    }
}

/// The full names of a class's methods.
pub open spec fn method_names(this: Seq<char>, ms: Seq<RawMethodView>) -> Seq<MethodNameView> {
    ms.map_values(|m: RawMethodView| MethodNameView { class: this, name: m.name, descriptor: m.descriptor })
}

/// The method-area entries of a class's methods.
pub open spec fn method_entries(this: Seq<char>, ms: Seq<RawMethodView>) -> Seq<
    (MethodKey, (Seq<char>, RawMethodView)),
> {
    ms.map_values(|m: RawMethodView| (raw_method_key(this, m), (this, m)))
}

/// The class that the part of class file `b` after the constant pool (at
/// `p1`) describes, given the raw pool `raw` and the run-time pool `cs`, and
/// its methods.
pub open spec fn spec_load_body(
    raw: Seq<RawConstantView>,
    cs: Seq<ConstantView>,
    b: Seq<u8>,
    p1: int,
    minor: u16,
    major: u16,
) -> Result<(RawClassView, Seq<RawMethodView>), LoadError> {
    match spec_class_info(raw, b, p1) {
        Err(e) => Err(e),
        Ok((access, this, super_class, interfaces, p2)) => match spec_counted(
            field_item(raw, cs, b),
            b,
            p2,
        ) {
            Err(e) => Err(e),
            Ok((fields, p3)) => match spec_counted(method_item(raw, cs, b), b, p3) {
                Err(e) => Err(e),
                Ok((methods, p4)) => {
                    let attrs: Result<(Seq<AttributeView>, int), LoadError> = if p4 + 2 > b.len() {
                        Err(LoadError::UnexpectedEof)
                    } else {
                        spec_attributes(cs, b, p4 + 2, be16(b, p4) as nat)
                    };
                    match attrs {
                        Err(e) => Err(e),
                        Ok((attrs, _)) => match spec_class_attributes(cs, attrs) {
                            Err(e) => Err(e),
                            Ok((bootstraps, signature, source, inner, rest)) => match spec_layout(
                                fields,
                            ) {
                                Err(e) => Err(e),
                                Ok((inst, size, st, words)) => Ok(
                                    (
                                        RawClassView {
                                            minor_version: minor,
                                            major_version: major,
                                            constants: cs,
                                            access,
                                            this,
                                            super_class,
                                            interfaces,
                                            field_size: size,
                                            fields: inst,
                                            static_data: words,
                                            statics: st,
                                            methods: method_names(this, methods),
                                            bootstrap_methods: bootstraps,
                                            source_file: source,
                                            signature,
                                            inner_classes: inner,
                                            attributes: rest,
                                        },
                                        methods,
                                    ),
                                ),
                            },
                        },
                    }
                },
            },
        },
    }
}

/// The class that the class file `b` holds, and its methods: header,
/// constant pool, class information, fields, methods and attributes, in
/// this order, the first refusal giving the error.
pub open spec fn spec_load_class(b: Seq<u8>) -> Result<(RawClassView, Seq<RawMethodView>), LoadError> {
    match spec_header(b) {
        Err(e) => Err(e),
        Ok((minor, major, count)) => match spec_constant_pool(b, 10, count as int) {
            Err(e) => Err(e),
            Ok((raw, p1)) => match spec_cook_prefix(raw, raw.len()) {
                Err(e) => Err(e),
                Ok(cs) => spec_load_body(raw, cs, b, p1, minor, major),
            },
        },
    }
}

/// The full names of a class's methods and their method-area entries.
fn name_methods(this: &Vec<char>, methods: Vec<RawMethod>) -> (r: (Vec<MethodName>, Vec<(Vec<char>, RawMethod)>))
    ensures
        method_names_view(r.0@) == method_names(this@, raw_methods_view(methods@)),
        working_entries_view(r.1@) == method_entries(this@, raw_methods_view(methods@)),
{
    let ghost ms = raw_methods_view(methods@);
    let mut names: Vec<MethodName> = Vec::new();
    let mut entries: Vec<(Vec<char>, RawMethod)> = Vec::new();
    let mut methods = methods;
    let mut done: usize = 0;
    let n = methods.len();
    while methods.len() > 0
        invariant
            methods@.len() + done == ms.len(),
            ms.len() <= usize::MAX,
            raw_methods_view(methods@) == ms.subrange(done as int, ms.len() as int),
            method_names_view(names@) == method_names(this@, ms.subrange(0, done as int)),
            working_entries_view(entries@) == method_entries(this@, ms.subrange(0, done as int)),
        decreases methods@.len(),
    {
        let ghost rest = methods@;
        let m = methods.remove(0);
        proof {
            assert(methods@ =~= rest.subrange(1, rest.len() as int));
            assert(raw_methods_view(rest)[0] == ms[done as int]);
            assert(m@ == ms[done as int]);
            assert(raw_methods_view(methods@) =~= ms.subrange(done + 1, ms.len() as int)) by {
                assert forall|j: int| 0 <= j < methods@.len() implies #[trigger] methods@[j]@
                    == ms[done + 1 + j] by {
                    assert(methods@[j] == rest[j + 1]);
                    assert(raw_methods_view(rest)[j + 1] == ms[done + 1 + j]);
                }
            }
        }
        let ghost n0 = method_names_view(names@);
        let ghost e0 = working_entries_view(entries@);
        let ghost mv = m@;
        names.push(m.name(copy_chars(this)));
        entries.push((copy_chars(this), m));
        proof {
            let pre = ms.subrange(0, done as int);
            let pre2 = ms.subrange(0, done + 1);
            assert(pre2 =~= pre.push(mv));
            assert(method_names(this@, pre2) =~= method_names(this@, pre).push(
                MethodNameView { class: this@, name: mv.name, descriptor: mv.descriptor },
            ));
            assert(method_entries(this@, pre2) =~= method_entries(this@, pre).push(
                (raw_method_key(this@, mv), (this@, mv)),
            ));
            assert(method_names_view(names@) =~= n0.push(
                MethodNameView { class: this@, name: mv.name, descriptor: mv.descriptor },
            ));
            assert(working_entries_view(entries@) =~= e0.push((raw_method_key(this@, mv), (this@, mv))));
        }
        done = done + 1;
    }
    assert(ms.subrange(0, ms.len() as int) =~= ms);
    (names, entries)
}

/// Reads the class information at `*pos` (see `spec_class_info`) and moves past it.
fn parse_class_info(raw_constants: &Vec<RawConstant>, bytes: &[u8], pos: &mut usize) -> (r: Result<
    (AccessFlags, Vec<char>, Vec<char>, Vec<Vec<char>>),
    LoadError,
>)
    ensures
        match spec_class_info(raw_pool_view(raw_constants@), bytes@, *old(pos) as int) {
            Ok((a, t, s, i, q)) => r matches Ok((va, vt, vs, vi)) && va.0 == a && vt@ == t && vs@ == s
                && names_view(vi@) == i && *final(pos) == q,
            Err(e) => r matches Err(e2) && e2 == e,
        },
{
    if *pos > bytes.len() || bytes.len() - *pos < 8 {
        return Err(LoadError::UnexpectedEof);
    }
    let access = get_u16(bytes, pos)?;
    let this_class = get_u16(bytes, pos)?;
    let super_class = get_u16(bytes, pos)?;
    let interface_count = get_u16(bytes, pos)?;
    let this_class = raw_class_index(raw_constants.as_slice(), this_class as usize)?;
    let super_class = raw_class_index(raw_constants.as_slice(), super_class as usize)?;
    let interfaces = parse_interfaces(raw_constants, bytes, pos, interface_count)?;
    Ok((AccessFlags(access), this_class, super_class, interfaces))
}

/// Reads the fields, methods and attributes at `*pos` and moves past them.
fn parse_members(raw_constants: &Vec<RawConstant>, constants: &Vec<Constant>, bytes: &[u8], pos: &mut usize) -> (r: Result<
    (Vec<Field>, Vec<RawMethod>, Vec<Attribute>),
    LoadError,
>)
    requires
        short_strings(raw_pool_view(raw_constants@)),
    ensures
        ({
            let raw = raw_pool_view(raw_constants@);
            let cs = constants_view(constants@);
            let b = bytes@;
            match spec_counted(field_item(raw, cs, b), b, *old(pos) as int) {
                Err(e) => r matches Err(e2) && e2 == e,
                Ok((fields, p3)) => match spec_counted(method_item(raw, cs, b), b, p3) {
                    Err(e) => r matches Err(e2) && e2 == e,
                    Ok((methods, p4)) => if p4 + 2 > b.len() {
                        r matches Err(e2) && e2 == LoadError::UnexpectedEof
                    } else {
                        match spec_attributes(cs, b, p4 + 2, be16(b, p4) as nat) {
                            Err(e) => r matches Err(e2) && e2 == e,
                            Ok((attrs, _)) => r matches Ok((f, m, a)) && fields_view(f@) == fields
                                && raw_methods_view(m@) == methods && attributes_view(a@) == attrs
                                && f@.len() <= 0xFFFF,
                        }
                    },
                },
            }
        }),
{
    let field_count = get_u16(bytes, pos)?;
    let fields = parse_fields(raw_constants, constants, bytes, pos, field_count)?;
    let method_count = get_u16(bytes, pos)?;
    let methods = parse_methods(raw_constants, constants, bytes, pos, method_count)?;
    let attribute_count = get_u16(bytes, pos)?;
    let attributes = get_attributes(constants.as_slice(), bytes, pos, attribute_count)?;
    proof {
        lemma_repeat_len(
            field_item(raw_pool_view(raw_constants@), constants_view(constants@), bytes@),
            (*old(pos) + 2) as int,
            field_count as nat,
        );
    }
    Ok((fields, methods, attributes))
}

/// A successful read of `n` items gives `n` items.
pub proof fn lemma_repeat_len<T>(item: spec_fn(int) -> Result<(T, int), LoadError>, p: int, n: nat)
    ensures
        spec_repeat(item, p, n) matches Ok((xs, _)) ==> xs.len() == n,
    decreases n,
{
    if n > 0 {
        lemma_repeat_len(item, p, (n - 1) as nat);
    }
}

/// Reads the part of a class file after its constant pool (see
/// `spec_load_body`); gives the class and the method-area entries of its methods.
#[verifier::rlimit(30)]
fn load_body(
    raw_constants: &Vec<RawConstant>,
    constants: Vec<Constant>,
    bytes: &[u8],
    pos: &mut usize,
    version: ClassVersion,
) -> (r: Result<(RawClass, Vec<(Vec<char>, RawMethod)>), LoadError>)
    requires
        short_strings(raw_pool_view(raw_constants@)),
    ensures
        match spec_load_body(
            raw_pool_view(raw_constants@),
            constants_view(constants@),
            bytes@,
            *old(pos) as int,
            version.minor_version,
            version.major_version,
        ) {
            Ok((c, ms)) => r matches Ok((v, m)) && v@ == c && working_entries_view(m@)
                == method_entries(c.this, ms),
            Err(e) => r matches Err(e2) && e2 == e,
        },
{
    let (access, this_class, super_class, interfaces) = parse_class_info(raw_constants, bytes, pos)?;
    let (fields, methods, attributes) = parse_members(raw_constants, &constants, bytes, pos)?;
    let (bootstrap_methods, signature, source_file, inner_classes, attributes) = class_attributes(
        &constants,
        &attributes,
    )?;
    let (fields, field_size, statics, static_data) = layout_fields(fields)?;
    let (names, entries) = name_methods(&this_class, methods);
    let class = RawClass {
        version,
        constants,
        access,
        this: this_class,
        super_class,
        interfaces,
        field_size,
        fields,
        static_data,
        statics,
        methods: names,
        bootstrap_methods,
        source_file,
        signature,
        inner_classes,
        attributes,
    };
    Ok((class, entries))
}

/// Reads a class file and files its methods in the method area. On a
/// refusal the method area is left as it was.
pub fn load_class(method_area: &mut WorkingMethodArea, bytes: &[u8]) -> (r: Result<RawClass, LoadError>)
    ensures
        match spec_load_class(bytes@) {
            Ok((c, ms)) => r matches Ok(v) && v@ == c && final(method_area)@ == insert_all(
                old(method_area)@,
                method_entries(c.this, ms),
            ),
            Err(e) => r matches Err(e2) && e2 == e && final(method_area)@ == old(method_area)@,
        },
{
    let mut pos: usize = 0;
    let magic = get_u32(bytes, &mut pos)?;
    if magic != 0xCAFE_BABE {
        return Err(LoadError::InvalidHeader);
    }
    let minor_version = get_u16(bytes, &mut pos)?;
    let major_version = get_u16(bytes, &mut pos)?;
    let const_count = get_u16(bytes, &mut pos)?;
    let version = ClassVersion { minor_version, major_version };
    proof {
        lemma_pool_strings_short(bytes@, 10, const_count as int);
    }
    let raw_constants = parse_constant_pool(bytes, &mut pos, const_count)?;
    let constants = cook_constants(&raw_constants)?;
    let (class, entries) = load_body(&raw_constants, constants, bytes, &mut pos, version)?;
    method_area.extend(entries);
    Ok(class)
}

/// The areas a program starts from: the classes of the library that the
/// machine provides, with their native methods (see
/// `crate::native::add_native_methods`).
pub fn load_environment() -> (r: (WorkingMethodArea, crate::data::WorkingClassArea))
    ensures
        crate::native::natives_filed(r.0@, r.1@, seq![]),
        crate::data::lookup_entry(r.1@, "java/lang/Object"@) is Some,
        crate::data::lookup_entry(r.1@, "java/lang/String"@) is Some,
        crate::data::lookup_entry(r.1@, "java/lang/System"@) is Some,
        crate::data::lookup_entry(r.1@, "java/io/PrintStream"@) is Some,
{
    let mut method_area = WorkingMethodArea::new();
    let mut class_area = crate::data::WorkingClassArea::new();
    crate::native::add_native_methods(&mut method_area, &mut class_area);
    (method_area, class_area)
}

} // verus!
