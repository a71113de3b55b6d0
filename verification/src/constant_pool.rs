//! The constant pool of a class file: its raw entries as the file holds them,
//! and their resolution into run-time constants.
use vstd::prelude::*;

use crate::class::{Constant, ConstantView, FieldType, MethodDescriptor, MethodHandle, MethodHandleView};
use crate::class_loader::{
    be16, be32, be64, decode_java_string, get_u16, get_u32, get_u64, lemma_decode_length,
    parse_field_type, parse_java_string, parse_method_descriptor, spec_field_type,
    spec_method_descriptor, LoadError,
};
use crate::text::copy_chars;

verus! {

/// The reference kind of a method-handle constant.
#[derive(Clone, Copy, PartialEq, Eq, Structural, Debug)]
pub enum MethodHandleKind {
    GetField,
    GetStatic,
    PutField,
    PutStatic,
    InvokeVirtual,
    InvokeStatic,
    InvokeSpecial,
    NewInvokeSpecial,
    InvokeInterface,
}

/// The reference kind that the byte `k` of a method-handle constant names.
pub open spec fn spec_handle_kind(k: u8) -> Option<MethodHandleKind> {
    if k == 1 {
        Some(MethodHandleKind::GetField)
    } else if k == 2 {
        Some(MethodHandleKind::GetStatic)
    } else if k == 3 {
        Some(MethodHandleKind::PutField)
    } else if k == 4 {
        Some(MethodHandleKind::PutStatic)
    } else if k == 5 {
        Some(MethodHandleKind::InvokeVirtual)
    } else if k == 6 {
        Some(MethodHandleKind::InvokeStatic)
    } else if k == 7 {
        Some(MethodHandleKind::InvokeSpecial)
    } else if k == 8 {
        Some(MethodHandleKind::NewInvokeSpecial)
    } else if k == 9 {
        Some(MethodHandleKind::InvokeInterface)
    } else {
        None
    }
}

fn handle_kind(k: u8) -> (r: Option<MethodHandleKind>)
    ensures
        r == spec_handle_kind(k),
{
    match k {
        1 => Some(MethodHandleKind::GetField),
        2 => Some(MethodHandleKind::GetStatic),
        3 => Some(MethodHandleKind::PutField),
        4 => Some(MethodHandleKind::PutStatic),
        5 => Some(MethodHandleKind::InvokeVirtual),
        6 => Some(MethodHandleKind::InvokeStatic),
        7 => Some(MethodHandleKind::InvokeSpecial),
        8 => Some(MethodHandleKind::NewInvokeSpecial),
        9 => Some(MethodHandleKind::InvokeInterface),
        _ => None,
    }
}

/// A member of the constant pool as the class file holds it: references to
/// other entries are still indices (counted from 1). Floating-point values
/// are held by their bit patterns.
pub enum RawConstant {
    String(Vec<char>),
    Int(i32),
    Float(u32),
    Long(i64),
    Double(u64),
    ClassRef { string_addr: u16 },
    StringRef { string_addr: u16 },
    FieldRef { class_ref_addr: u16, name_type_addr: u16 },
    MethodRef { class_ref_addr: u16, name_type_addr: u16 },
    InterfaceRef { class_ref_addr: u16, name_type_addr: u16 },
    NameTypeDescriptor { name_desc_addr: u16, type_addr: u16 },
    MethodHandle { descriptor: MethodHandleKind, index: u16 },
    MethodType { index: u16 },
    InvokeDynamic { bootstrap_index: u16, name_type_index: u16 },
    /// the index taken up by the second half of a `long` or `double`
    Placeholder,
}

/// The mathematical value of a `RawConstant`.
pub enum RawConstantView {
    String(Seq<char>),
    Int(i32),
    Float(u32),
    Long(i64),
    Double(u64),
    ClassRef { string_addr: u16 },
    StringRef { string_addr: u16 },
    FieldRef { class_ref_addr: u16, name_type_addr: u16 },
    MethodRef { class_ref_addr: u16, name_type_addr: u16 },
    InterfaceRef { class_ref_addr: u16, name_type_addr: u16 },
    NameTypeDescriptor { name_desc_addr: u16, type_addr: u16 },
    MethodHandle { descriptor: MethodHandleKind, index: u16 },
    MethodType { index: u16 },
    InvokeDynamic { bootstrap_index: u16, name_type_index: u16 },
    Placeholder,
}

impl View for RawConstant {
    type V = RawConstantView;

    open spec fn view(&self) -> RawConstantView {
        match self {
            RawConstant::String(s) => RawConstantView::String(s@),
            RawConstant::Int(i) => RawConstantView::Int(*i),
            RawConstant::Float(f) => RawConstantView::Float(*f),
            RawConstant::Long(l) => RawConstantView::Long(*l),
            RawConstant::Double(d) => RawConstantView::Double(*d),
            RawConstant::ClassRef { string_addr } => RawConstantView::ClassRef {
                string_addr: *string_addr,
            },
            RawConstant::StringRef { string_addr } => RawConstantView::StringRef {
                string_addr: *string_addr,
            },
            RawConstant::FieldRef { class_ref_addr, name_type_addr } => RawConstantView::FieldRef {
                class_ref_addr: *class_ref_addr,
                name_type_addr: *name_type_addr,
            },
            RawConstant::MethodRef { class_ref_addr, name_type_addr } =>
                RawConstantView::MethodRef {
                    class_ref_addr: *class_ref_addr,
                    name_type_addr: *name_type_addr,
                },
            RawConstant::InterfaceRef { class_ref_addr, name_type_addr } =>
                RawConstantView::InterfaceRef {
                    class_ref_addr: *class_ref_addr,
                    name_type_addr: *name_type_addr,
                },
            RawConstant::NameTypeDescriptor { name_desc_addr, type_addr } =>
                RawConstantView::NameTypeDescriptor {
                    name_desc_addr: *name_desc_addr,
                    type_addr: *type_addr,
                },
            RawConstant::MethodHandle { descriptor, index } => RawConstantView::MethodHandle {
                descriptor: *descriptor,
                index: *index,
            },
            RawConstant::MethodType { index } => RawConstantView::MethodType { index: *index },
            RawConstant::InvokeDynamic { bootstrap_index, name_type_index } =>
                RawConstantView::InvokeDynamic {
                    bootstrap_index: *bootstrap_index,
                    name_type_index: *name_type_index,
                },
            RawConstant::Placeholder => RawConstantView::Placeholder,
        }
    }
}

/// The view of each entry of a raw pool.
pub open spec fn raw_pool_view(s: Seq<RawConstant>) -> Seq<RawConstantView> {
    s.map_values(|c: RawConstant| c@)
}

/// The end of the `n` bytes at `start`, cut short at the end of `s`.
pub open spec fn take_end(s: Seq<u8>, start: int, n: int) -> int {
    if start + n <= s.len() {
        start + n
    } else {
        s.len() as int
    }
}

/// The entries (one, or two for a `long` or `double`) that the constant-pool
/// entry at `p` of the class file `b` gives, and the position after it.
pub open spec fn spec_raw_entry(b: Seq<u8>, p: int) -> Result<(Seq<RawConstantView>, int), LoadError> {
    if p < 0 || p >= b.len() {
        Err(LoadError::BadConstantTag(None))
    } else {
        let tag = b[p];
        let q = p + 1;
        if tag == 1 {
            if q + 2 > b.len() {
                Err(LoadError::UnexpectedEof)
            } else {
                let start = q + 2;
                let end = take_end(b, start, be16(b, q));
                match decode_java_string(b.subrange(start, end), 0) {
                    Ok(s) => Ok((seq![RawConstantView::String(s)], end)),
                    Err(e) => Err(e),
                }
            }
        } else if tag == 3 || tag == 4 {
            if q + 4 > b.len() {
                Err(LoadError::UnexpectedEof)
            } else if tag == 3 {
                Ok((seq![RawConstantView::Int(be32(b, q) as u32 as i32)], q + 4))
            } else {
                Ok((seq![RawConstantView::Float(be32(b, q) as u32)], q + 4))
            }
        } else if tag == 5 || tag == 6 {
            if q + 8 > b.len() {
                Err(LoadError::UnexpectedEof)
            } else if tag == 5 {
                Ok(
                    (
                        seq![
                            RawConstantView::Long(be64(b, q) as u64 as i64),
                            RawConstantView::Placeholder,
                        ],
                        q + 8,
                    ),
                )
            } else {
                Ok(
                    (
                        seq![RawConstantView::Double(be64(b, q) as u64), RawConstantView::Placeholder],
                        q + 8,
                    ),
                )
            }
        } else if tag == 7 || tag == 8 || tag == 16 {
            if q + 2 > b.len() {
                Err(LoadError::UnexpectedEof)
            } else if tag == 7 {
                Ok((seq![RawConstantView::ClassRef { string_addr: be16(b, q) as u16 }], q + 2))
            } else if tag == 8 {
                Ok((seq![RawConstantView::StringRef { string_addr: be16(b, q) as u16 }], q + 2))
            } else {
                Ok((seq![RawConstantView::MethodType { index: be16(b, q) as u16 }], q + 2))
            }
        } else if tag == 9 || tag == 10 || tag == 11 || tag == 12 || tag == 18 {
            if q + 4 > b.len() {
                Err(LoadError::UnexpectedEof)
            } else {
                let x = be16(b, q) as u16;
                let y = be16(b, q + 2) as u16;
                let c = if tag == 9 {
                    RawConstantView::FieldRef { class_ref_addr: x, name_type_addr: y }
                } else if tag == 10 {
                    RawConstantView::MethodRef { class_ref_addr: x, name_type_addr: y }
                } else if tag == 11 {
                    RawConstantView::InterfaceRef { class_ref_addr: x, name_type_addr: y }
                } else if tag == 12 {
                    RawConstantView::NameTypeDescriptor { name_desc_addr: x, type_addr: y }
                } else {
                    RawConstantView::InvokeDynamic { bootstrap_index: x, name_type_index: y }
                };
                Ok((seq![c], q + 4))
            }
        } else if tag == 15 {
            if q >= b.len() {
                Err(LoadError::UnexpectedEof)
            } else {
                match spec_handle_kind(b[q]) {
                    None => Err(LoadError::InvalidMethodHandleKind(b[q])),
                    Some(kind) => if q + 3 > b.len() {
                        Err(LoadError::UnexpectedEof)
                    } else {
                        Ok(
                            (
                                seq![
                                    RawConstantView::MethodHandle {
                                        descriptor: kind,
                                        index: be16(b, q + 1) as u16,
                                    },
                                ],
                                q + 3,
                            ),
                        )
                    },
                }
            }
        } else {
            Err(LoadError::BadConstantTag(Some(tag)))
        }
    }
}

/// An entry gives one or two constants and moves forward.
pub proof fn lemma_raw_entry(b: Seq<u8>, p: int)
    ensures
        spec_raw_entry(b, p) matches Ok((items, q)) ==> 1 <= items.len() <= 2 && p < q <= b.len(),
{
    if 0 <= p < b.len() && b[p] == 1 && p + 3 <= b.len() {
        let start = p + 3;
        let end = take_end(b, start, be16(b, p + 1));
        assert(start <= end);
    }
}

/// The constants that the pool at `p` holds when the header counts `count`
/// (one more than the number of entries, a `long` or `double` counting
/// twice), and the position after the pool.
pub open spec fn spec_constant_pool(b: Seq<u8>, p: int, count: int) -> Result<
    (Seq<RawConstantView>, int),
    LoadError,
>
    decreases count,
{
    if count <= 1 {
        Ok((seq![], p))
    } else {
        match spec_raw_entry(b, p) {
            Ok((items, q)) => {
                proof {
                    lemma_raw_entry(b, p);
                }
                match spec_constant_pool(b, q, count - items.len()) {
                    Ok((rest, r)) => Ok((items + rest, r)),
                    Err(e) => Err(e),
                }
            },
            Err(e) => Err(e),
        }
    }
}

/// Whether every string of a raw pool has at most 65535 characters.
pub open spec fn short_strings(cs: Seq<RawConstantView>) -> bool {
    forall|k: int|
        0 <= k < cs.len() ==> (#[trigger] cs[k] matches RawConstantView::String(s) ==> s.len()
            <= 0xFFFF)
}

/// Every string entry of a parsed pool has at most 65535 characters.
pub proof fn lemma_pool_strings_short(b: Seq<u8>, p: int, count: int)
    requires
        0 <= p,
    ensures
        spec_constant_pool(b, p, count) matches Ok((cs, _)) ==> short_strings(cs),
    decreases count,
{
    if count > 1 {
        lemma_raw_entry(b, p);
        if let Ok((items, q)) = spec_raw_entry(b, p) {
            lemma_pool_strings_short(b, q, count - items.len());
            if b[p] == 1 {
                let start = p + 3;
                let end = take_end(b, start, be16(b, p + 1));
                if start <= b.len() {
                    lemma_decode_length(b.subrange(start, end), 0);
                }
            }
            if let Ok((rest, r)) = spec_constant_pool(b, q, count - items.len()) {
                assert forall|k: int| 0 <= k < (items + rest).len() implies (#[trigger] (items
                    + rest)[k] matches RawConstantView::String(s) ==> s.len() <= 0xFFFF) by {
                    if k >= items.len() {
                        assert((items + rest)[k] == rest[k - items.len()]);
                    }
                }
            }
        }
    }
}

/// Copies up to `n` bytes at `start`, fewer where the input ends first.
fn take_bytes(bytes: &[u8], start: usize, n: usize) -> (r: Vec<u8>)
    requires
        start <= bytes@.len(),
    ensures
        r@ == bytes@.subrange(start as int, take_end(bytes@, start as int, n as int)),
{
    let end = if n <= bytes.len() - start {
        start + n
    } else {
        bytes.len()
    };
    let mut out: Vec<u8> = Vec::new();
    let mut i: usize = start;
    while i < end
        invariant
            start <= i <= end,
            end <= bytes@.len(),
            out@ == bytes@.subrange(start as int, i as int),
        decreases end - i,
    {
        out.push(bytes[i]);
        i = i + 1;
        assert(out@ =~= bytes@.subrange(start as int, i as int));
    }
    out
}

/// Reads the constant-pool entry at `*pos` and appends what it gives to `out`.
fn parse_raw_entry(bytes: &[u8], pos: &mut usize, out: &mut Vec<RawConstant>) -> (r: Result<
    (),
    LoadError,
>)
    ensures
        match spec_raw_entry(bytes@, *old(pos) as int) {
            Ok((items, q)) => r is Ok && *final(pos) == q && raw_pool_view(final(out)@) == raw_pool_view(
                old(out)@,
            ) + items,
            Err(e) => r == Err::<(), LoadError>(e),
        },
{
    let ghost out0 = raw_pool_view(out@);
    let p = *pos;
    if p >= bytes.len() {
        return Err(LoadError::BadConstantTag(None));
    }
    let tag = bytes[p];
    *pos = p + 1;
    let c = if tag == 1 {
        let strlen = get_u16(bytes, pos)?;
        let start = *pos;
        let raw = take_bytes(bytes, start, strlen as usize);
        let string = parse_java_string(raw.as_slice())?;
        *pos = start + raw.len();
        RawConstant::String(string)
    } else if tag == 3 {
        let bits = get_u32(bytes, pos)?;
        RawConstant::Int(bits as i32)
    } else if tag == 4 {
        let bits = get_u32(bytes, pos)?;
        RawConstant::Float(bits)
    } else if tag == 5 {
        let bits = get_u64(bytes, pos)?;
        out.push(RawConstant::Long(bits as i64));
        RawConstant::Placeholder
    } else if tag == 6 {
        let bits = get_u64(bytes, pos)?;
        out.push(RawConstant::Double(bits));
        RawConstant::Placeholder
    } else if tag == 7 {
        let string_addr = get_u16(bytes, pos)?;
        RawConstant::ClassRef { string_addr }
    } else if tag == 8 {
        let string_addr = get_u16(bytes, pos)?;
        RawConstant::StringRef { string_addr }
    } else if tag == 16 {
        let index = get_u16(bytes, pos)?;
        RawConstant::MethodType { index }
    } else if tag == 9 || tag == 10 || tag == 11 || tag == 12 || tag == 18 {
        if bytes.len() - *pos < 4 {
            return Err(LoadError::UnexpectedEof);
        }
        let x = get_u16(bytes, pos)?;
        let y = get_u16(bytes, pos)?;
        if tag == 9 {
            RawConstant::FieldRef { class_ref_addr: x, name_type_addr: y }
        } else if tag == 10 {
            RawConstant::MethodRef { class_ref_addr: x, name_type_addr: y }
        } else if tag == 11 {
            RawConstant::InterfaceRef { class_ref_addr: x, name_type_addr: y }
        } else if tag == 12 {
            RawConstant::NameTypeDescriptor { name_desc_addr: x, type_addr: y }
        } else {
            RawConstant::InvokeDynamic { bootstrap_index: x, name_type_index: y }
        }
    } else if tag == 15 {
        if *pos >= bytes.len() {
            return Err(LoadError::UnexpectedEof);
        }
        let k = bytes[*pos];
        *pos = *pos + 1;
        let descriptor = match handle_kind(k) {
            Some(d) => d,
            None => {
                return Err(LoadError::InvalidMethodHandleKind(k));
            },
        };
        let index = get_u16(bytes, pos)?;
        RawConstant::MethodHandle { descriptor, index }
    } else {
        return Err(LoadError::BadConstantTag(Some(tag)));
    };
    out.push(c);
    proof {
        assert(raw_pool_view(out@) =~= out0 + spec_raw_entry(bytes@, p as int)->Ok_0.0);
    }
    Ok(())
}

/// Reads the constant pool at `*pos`, whose header count is `const_count`,
/// and moves past it.
pub fn parse_constant_pool(bytes: &[u8], pos: &mut usize, const_count: u16) -> (r: Result<
    Vec<RawConstant>,
    LoadError,
>)
    ensures
        match spec_constant_pool(bytes@, *old(pos) as int, const_count as int) {
            Ok((cs, q)) => r matches Ok(v) && raw_pool_view(v@) == cs && *final(pos) == q,
            Err(e) => r matches Err(e2) && e2 == e,
        },
{
    let ghost p0 = *pos as int;
    let mut out: Vec<RawConstant> = Vec::new();
    let mut count = const_count;
    proof {
        if let Ok((cs, q)) = spec_constant_pool(bytes@, p0, const_count as int) {
            assert(raw_pool_view(out@) + cs =~= cs);
        }
    }
    while count > 1
        invariant
            p0 == *old(pos) as int,
            match spec_constant_pool(bytes@, p0, const_count as int) {
                Ok((cs, q)) => spec_constant_pool(bytes@, *pos as int, count as int) matches Ok((
                    rest,
                    q2,
                )) && q2 == q && cs == raw_pool_view(out@) + rest,
                Err(e) => spec_constant_pool(bytes@, *pos as int, count as int) == Err::<
                    (Seq<RawConstantView>, int),
                    LoadError,
                >(e),
            },
        decreases count,
    {
        let ghost before = raw_pool_view(out@);
        let ghost p = *pos as int;
        let len_before = out.len();
        proof {
            lemma_raw_entry(bytes@, p);
        }
        match parse_raw_entry(bytes, pos, &mut out) {
            Ok(()) => {},
            Err(e) => {
                assert(spec_constant_pool(bytes@, p, count as int) == Err::<
                    (Seq<RawConstantView>, int),
                    LoadError,
                >(e));
                assert(spec_constant_pool(bytes@, p0, const_count as int) == Err::<
                    (Seq<RawConstantView>, int),
                    LoadError,
                >(e));
                assert(p0 == *old(pos) as int);
                return Err(e);
            },
        }
        proof {
            let items = spec_raw_entry(bytes@, p)->Ok_0.0;
            assert(raw_pool_view(out@).len() == out@.len());
            assert(before.len() == len_before);
        }
        let n = out.len() - len_before;
        proof {
            let items = spec_raw_entry(bytes@, p)->Ok_0.0;
            assert(n == items.len());
            if let Ok((cs, q)) = spec_constant_pool(bytes@, p0, const_count as int) {
                let rest = spec_constant_pool(bytes@, p, count as int)->Ok_0.0;
                let rest2 = spec_constant_pool(bytes@, *pos as int, count - items.len())->Ok_0.0;
                assert(rest == items + rest2);
                assert(cs == before + (items + rest2));
                assert(before + (items + rest2) =~= raw_pool_view(out@) + rest2);
            }
        }
        count = count - n as u16;
    }
    proof {
        if let Ok((cs, q)) = spec_constant_pool(bytes@, p0, const_count as int) {
            assert(raw_pool_view(out@) + seq![] =~= raw_pool_view(out@));
        }
    }
    Ok(out)
}


/// Whether an exec name result matches a spec one.
pub open spec fn chars_result(r: Result<Vec<char>, LoadError>, s: Result<Seq<char>, LoadError>) -> bool {
    match s {
        Ok(t) => r matches Ok(v) && v@ == t,
        Err(e) => r == Err::<Vec<char>, LoadError>(e),
    }
}

/// The string at the 1-based index `idx` of a raw pool.
pub open spec fn spec_raw_str(pool: Seq<RawConstantView>, idx: int) -> Result<Seq<char>, LoadError> {
    if 1 <= idx <= pool.len() {
        match pool[idx - 1] {
            RawConstantView::String(s) => Ok(s),
            _ => Err(LoadError::ExpectedString),
        }
    } else {
        Err(LoadError::ConstantIndexOutOfRange)
    }
}

/// The class name that the class reference at the 1-based index `idx` of a raw pool names.
pub open spec fn spec_raw_class(pool: Seq<RawConstantView>, idx: int) -> Result<Seq<char>, LoadError> {
    if 1 <= idx <= pool.len() {
        match pool[idx - 1] {
            RawConstantView::ClassRef { string_addr } => spec_raw_str(pool, string_addr as int),
            _ => Err(LoadError::ExpectedClassRef),
        }
    } else {
        Err(LoadError::ConstantIndexOutOfRange)
    }
}

/// The name and type descriptor that the entry at the 1-based index `idx` of a raw pool names.
pub open spec fn spec_raw_name_type(pool: Seq<RawConstantView>, idx: int) -> Result<
    (Seq<char>, Seq<char>),
    LoadError,
> {
    if 1 <= idx <= pool.len() && pool[idx - 1] is NameTypeDescriptor {
        match spec_raw_str(pool, pool[idx - 1]->name_desc_addr as int) {
            Ok(name) => match spec_raw_str(pool, pool[idx - 1]->type_addr as int) {
                Ok(t) => Ok((name, t)),
                Err(e) => Err(e),
            },
            Err(e) => Err(e),
        }
    } else {
        Err(LoadError::InvalidNameTypeDescriptor)
    }
}

/// Reads the string at the 1-based index `idx` of a raw pool.
pub fn raw_str_index(constants: &[RawConstant], idx: usize) -> (r: Result<Vec<char>, LoadError>)
    ensures
        chars_result(r, spec_raw_str(raw_pool_view(constants@), idx as int)),
{
    if idx == 0 || idx > constants.len() {
        return Err(LoadError::ConstantIndexOutOfRange);
    }
    match &constants[idx - 1] {
        RawConstant::String(s) => Ok(copy_chars(s)),
        _ => Err(LoadError::ExpectedString),
    }
}

/// Reads the class name of the class reference at the 1-based index `idx` of a raw pool.
pub fn raw_class_index(constants: &[RawConstant], idx: usize) -> (r: Result<Vec<char>, LoadError>)
    ensures
        chars_result(r, spec_raw_class(raw_pool_view(constants@), idx as int)),
{
    if idx == 0 || idx > constants.len() {
        return Err(LoadError::ConstantIndexOutOfRange);
    }
    match &constants[idx - 1] {
        RawConstant::ClassRef { string_addr } => raw_str_index(constants, *string_addr as usize),
        _ => Err(LoadError::ExpectedClassRef),
    }
}

/// Reads the name and type descriptor of the entry at the 1-based index `idx` of a raw pool.
pub fn raw_name_type_index(constants: &[RawConstant], idx: usize) -> (r: Result<
    (Vec<char>, Vec<char>),
    LoadError,
>)
    ensures
        match spec_raw_name_type(raw_pool_view(constants@), idx as int) {
            Ok((n, t)) => r matches Ok((a, b)) && a@ == n && b@ == t,
            Err(e) => r == Err::<(Vec<char>, Vec<char>), LoadError>(e),
        },
{
    if idx == 0 || idx > constants.len() {
        return Err(LoadError::InvalidNameTypeDescriptor);
    }
    match &constants[idx - 1] {
        RawConstant::NameTypeDescriptor { name_desc_addr, type_addr } => {
            let name = raw_str_index(constants, *name_desc_addr as usize)?;
            let type_chars = raw_str_index(constants, *type_addr as usize)?;
            Ok((name, type_chars))
        },
        _ => Err(LoadError::InvalidNameTypeDescriptor),
    }
}

/// The type that a whole descriptor string starts with.
pub open spec fn spec_field_type_of(s: Seq<char>) -> Result<crate::class::FieldTypeView, LoadError> {
    match spec_field_type(s, 0) {
        Ok((t, _)) => Ok(t),
        Err(e) => Err(e),
    }
}

/// A class, a name and a type, resolved from a field, method or interface reference.
pub open spec fn spec_member(pool: Seq<RawConstantView>, class_ref_addr: u16, name_type_addr: u16) -> Result<
    (Seq<char>, Seq<char>, Seq<char>),
    LoadError,
> {
    match spec_raw_class(pool, class_ref_addr as int) {
        Ok(class) => match spec_raw_name_type(pool, name_type_addr as int) {
            Ok((name, t)) => Ok((class, name, t)),
            Err(e) => Err(e),
        },
        Err(e) => Err(e),
    }
}

/// The run-time constant that the raw entry `c` of the pool `pool` resolves to.
pub open spec fn spec_cook(pool: Seq<RawConstantView>, c: RawConstantView) -> Result<ConstantView, LoadError> {
    match c {
        RawConstantView::ClassRef { string_addr } => match spec_raw_str(pool, string_addr as int) {
            Ok(s) => Ok(ConstantView::ClassRef(s)),
            Err(e) => Err(e),
        },
        RawConstantView::Double(d) => Ok(ConstantView::Double(d)),
        RawConstantView::Float(f) => Ok(ConstantView::Float(f)),
        RawConstantView::Int(i) => Ok(ConstantView::Int(i)),
        RawConstantView::Long(l) => Ok(ConstantView::Long(l)),
        RawConstantView::FieldRef { class_ref_addr, name_type_addr } => match spec_member(
            pool,
            class_ref_addr,
            name_type_addr,
        ) {
            Ok((class, name, t)) => match spec_field_type_of(t) {
                Ok(field_type) => Ok(ConstantView::FieldRef { class, name, field_type }),
                Err(e) => Err(e),
            },
            Err(e) => Err(e),
        },
        RawConstantView::MethodRef { class_ref_addr, name_type_addr } => match spec_member(
            pool,
            class_ref_addr,
            name_type_addr,
        ) {
            Ok((class, name, t)) => match spec_method_descriptor(t) {
                Ok(method_type) => Ok(ConstantView::MethodRef { class, name, method_type }),
                Err(e) => Err(e),
            },
            Err(e) => Err(e),
        },
        RawConstantView::InterfaceRef { class_ref_addr, name_type_addr } => match spec_member(
            pool,
            class_ref_addr,
            name_type_addr,
        ) {
            Ok((class, name, t)) => match spec_method_descriptor(t) {
                Ok(interface_type) => Ok(ConstantView::InterfaceRef { class, name, interface_type }),
                Err(e) => Err(e),
            },
            Err(e) => Err(e),
        },
        RawConstantView::InvokeDynamic { bootstrap_index, name_type_index } => match spec_raw_name_type(
            pool,
            name_type_index as int,
        ) {
            Ok((method_name, t)) => match spec_method_descriptor(t) {
                Ok(method_type) => Ok(
                    ConstantView::InvokeDynamic { bootstrap_index, method_name, method_type },
                ),
                Err(e) => Err(e),
            },
            Err(e) => Err(e),
        },
        RawConstantView::MethodHandle { descriptor, index } => {
            if 1 <= index <= pool.len() {
                spec_cook_handle(pool, descriptor, pool[index - 1])
            } else {
                Err(LoadError::ConstantIndexOutOfRange)
            }
        },
        RawConstantView::MethodType { index } => match spec_raw_str(pool, index as int) {
            Ok(t) => match spec_method_descriptor(t) {
                Ok(d) => Ok(ConstantView::MethodType(d)),
                Err(e) => Err(e),
            },
            Err(e) => Err(e),
        },
        RawConstantView::NameTypeDescriptor { name_desc_addr, type_addr } => match spec_raw_str(
            pool,
            name_desc_addr as int,
        ) {
            Ok(name) => match spec_raw_str(pool, type_addr as int) {
                Ok(type_descriptor) => Ok(ConstantView::NameTypeDescriptor { name, type_descriptor }),
                Err(e) => Err(e),
            },
            Err(e) => Err(e),
        },
        RawConstantView::String(s) => Ok(ConstantView::String(s)),
        RawConstantView::StringRef { string_addr } => match spec_raw_str(pool, string_addr as int) {
            Ok(s) => Ok(ConstantView::StringRef(s)),
            Err(e) => Err(e),
        },
        RawConstantView::Placeholder => Ok(ConstantView::Placeholder),
    }
}

/// The method handle that a handle of kind `kind` refers to through the raw
/// entry `target`: the field kinds take a field reference, `InvokeStatic` and
/// `InvokeSpecial` a method reference; any other pairing is refused.
pub open spec fn spec_cook_handle(pool: Seq<RawConstantView>, kind: MethodHandleKind, target: RawConstantView) -> Result<
    ConstantView,
    LoadError,
> {
    match target {
        RawConstantView::FieldRef { class_ref_addr, name_type_addr } if kind
            == MethodHandleKind::GetField || kind == MethodHandleKind::GetStatic || kind
            == MethodHandleKind::PutField || kind == MethodHandleKind::PutStatic => match spec_member(
            pool,
            class_ref_addr,
            name_type_addr,
        ) {
            Ok((class, name, t)) => match spec_field_type_of(t) {
                Ok(field_type) => Ok(
                    ConstantView::MethodHandle(
                        if kind == MethodHandleKind::GetField {
                            MethodHandleView::GetField { class, name, field_type }
                        } else if kind == MethodHandleKind::GetStatic {
                            MethodHandleView::GetStatic { class, name, field_type }
                        } else if kind == MethodHandleKind::PutField {
                            MethodHandleView::PutField { class, name, field_type }
                        } else {
                            MethodHandleView::PutStatic { class, name, field_type }
                        },
                    ),
                ),
                Err(e) => Err(e),
            },
            Err(e) => Err(e),
        },
        RawConstantView::MethodRef { class_ref_addr, name_type_addr } if kind
            == MethodHandleKind::InvokeStatic || kind == MethodHandleKind::InvokeSpecial =>
            match spec_member(pool, class_ref_addr, name_type_addr) {
            Ok((class, name, t)) => match spec_method_descriptor(t) {
                Ok(method_type) => Ok(
                    ConstantView::MethodHandle(
                        if kind == MethodHandleKind::InvokeStatic {
                            MethodHandleView::InvokeStatic { class, name, method_type }
                        } else {
                            MethodHandleView::InvokeSpecial { class, name, method_type }
                        },
                    ),
                ),
                Err(e) => Err(e),
            },
            Err(e) => Err(e),
        },
        _ => Err(LoadError::InvalidMethodHandle),
    }
}

/// Whether an exec constant result matches a spec one.
pub open spec fn constant_result(r: Result<Constant, LoadError>, s: Result<ConstantView, LoadError>) -> bool {
    match s {
        Ok(t) => r matches Ok(v) && v@ == t,
        Err(e) => r matches Err(e2) && e2 == e,
    }
}

fn member(constants: &[RawConstant], class_ref_addr: u16, name_type_addr: u16) -> (r: Result<
    (Vec<char>, Vec<char>, Vec<char>),
    LoadError,
>)
    ensures
        match spec_member(raw_pool_view(constants@), class_ref_addr, name_type_addr) {
            Ok((c, n, t)) => r matches Ok((a, b, d)) && a@ == c && b@ == n && d@ == t,
            Err(e) => r matches Err(e2) && e2 == e,
        },
{
    let class = raw_class_index(constants, class_ref_addr as usize)?;
    let (name, t) = raw_name_type_index(constants, name_type_addr as usize)?;
    Ok((class, name, t))
}

fn field_type_of(chars: &Vec<char>) -> (r: Result<FieldType, LoadError>)
    ensures
        match spec_field_type_of(chars@) {
            Ok(t) => r matches Ok(v) && v@ == t,
            Err(e) => r matches Err(e2) && e2 == e,
        },
{
    let mut pos: usize = 0;
    parse_field_type(chars.as_slice(), &mut pos)
}

fn method_descriptor_of(chars: &Vec<char>) -> (r: Result<MethodDescriptor, LoadError>)
    requires
        chars@.len() <= 0xFFFF,
    ensures
        match spec_method_descriptor(chars@) {
            Ok(d) => r matches Ok(v) && v@ == d,
            Err(e) => r matches Err(e2) && e2 == e,
        },
{
    parse_method_descriptor(chars.as_slice())
}

/// Every string that the raw pool's indices reach is short.
proof fn lemma_raw_str_short(pool: Seq<RawConstantView>, idx: int)
    requires
        short_strings(pool),
    ensures
        spec_raw_str(pool, idx) matches Ok(s) ==> s.len() <= 0xFFFF,
        spec_raw_name_type(pool, idx) matches Ok((n, t)) ==> t.len() <= 0xFFFF,
{
    if 1 <= idx <= pool.len() {
        assert(pool[idx - 1] matches RawConstantView::String(s) ==> s.len() <= 0xFFFF);
        if let RawConstantView::NameTypeDescriptor { name_desc_addr, type_addr } = pool[idx - 1] {
            let j = type_addr as int;
            if 1 <= j <= pool.len() {
                assert(pool[j - 1] matches RawConstantView::String(s) ==> s.len() <= 0xFFFF);
            }
        }
    }
}

/// Resolves a method handle of kind `kind` whose target is `target`.
fn cook_handle(constants: &[RawConstant], kind: MethodHandleKind, target: &RawConstant) -> (r: Result<
    Constant,
    LoadError,
>)
    requires
        short_strings(raw_pool_view(constants@)),
    ensures
        constant_result(r, spec_cook_handle(raw_pool_view(constants@), kind, target@)),
{
    match target {
        RawConstant::FieldRef { class_ref_addr, name_type_addr } => {
            if !(kind == MethodHandleKind::GetField || kind == MethodHandleKind::GetStatic || kind
                == MethodHandleKind::PutField || kind == MethodHandleKind::PutStatic) {
                return Err(LoadError::InvalidMethodHandle);
            }
            let (class, name, t) = member(constants, *class_ref_addr, *name_type_addr)?;
            let field_type = field_type_of(&t)?;
            Ok(
                Constant::MethodHandle(
                    if kind == MethodHandleKind::GetField {
                        MethodHandle::GetField { class, name, field_type }
                    } else if kind == MethodHandleKind::GetStatic {
                        MethodHandle::GetStatic { class, name, field_type }
                    } else if kind == MethodHandleKind::PutField {
                        MethodHandle::PutField { class, name, field_type }
                    } else {
                        MethodHandle::PutStatic { class, name, field_type }
                    },
                ),
            )
        },
        RawConstant::MethodRef { class_ref_addr, name_type_addr } => {
            if !(kind == MethodHandleKind::InvokeStatic || kind == MethodHandleKind::InvokeSpecial) {
                return Err(LoadError::InvalidMethodHandle);
            }
            proof {
                lemma_raw_str_short(raw_pool_view(constants@), *name_type_addr as int);
            }
            let (class, name, t) = member(constants, *class_ref_addr, *name_type_addr)?;
            let method_type = method_descriptor_of(&t)?;
            Ok(
                Constant::MethodHandle(
                    if kind == MethodHandleKind::InvokeStatic {
                        MethodHandle::InvokeStatic { class, name, method_type }
                    } else {
                        MethodHandle::InvokeSpecial { class, name, method_type }
                    },
                ),
            )
        },
        _ => Err(LoadError::InvalidMethodHandle),
    }
}

/// Resolves the raw entry `constant` of the pool `constants` into a run-time
/// constant: indices become the names and descriptors they point to.
pub fn cook_constant(constants: &[RawConstant], constant: &RawConstant) -> (r: Result<
    Constant,
    LoadError,
>)
    requires
        short_strings(raw_pool_view(constants@)),
    ensures
        constant_result(r, spec_cook(raw_pool_view(constants@), constant@)),
{
    let ghost pool = raw_pool_view(constants@);
    match constant {
        RawConstant::ClassRef { string_addr } => Ok(
            Constant::ClassRef(raw_str_index(constants, *string_addr as usize)?),
        ),
        RawConstant::Double(d) => Ok(Constant::Double(*d)),
        RawConstant::Float(f) => Ok(Constant::Float(*f)),
        RawConstant::Int(i) => Ok(Constant::Int(*i)),
        RawConstant::Long(l) => Ok(Constant::Long(*l)),
        RawConstant::FieldRef { class_ref_addr, name_type_addr } => {
            let (class, name, t) = member(constants, *class_ref_addr, *name_type_addr)?;
            let field_type = field_type_of(&t)?;
            Ok(Constant::FieldRef { class, name, field_type })
        },
        RawConstant::MethodRef { class_ref_addr, name_type_addr } => {
            proof {
                lemma_raw_str_short(pool, *name_type_addr as int);
            }
            let (class, name, t) = member(constants, *class_ref_addr, *name_type_addr)?;
            let method_type = method_descriptor_of(&t)?;
            Ok(Constant::MethodRef { class, name, method_type })
        },
        RawConstant::InterfaceRef { class_ref_addr, name_type_addr } => {
            proof {
                lemma_raw_str_short(pool, *name_type_addr as int);
            }
            let (class, name, t) = member(constants, *class_ref_addr, *name_type_addr)?;
            let interface_type = method_descriptor_of(&t)?;
            Ok(Constant::InterfaceRef { class, name, interface_type })
        },
        RawConstant::InvokeDynamic { bootstrap_index, name_type_index } => {
            proof {
                lemma_raw_str_short(pool, *name_type_index as int);
            }
            let (method_name, t) = raw_name_type_index(constants, *name_type_index as usize)?;
            let method_type = method_descriptor_of(&t)?;
            Ok(Constant::InvokeDynamic { bootstrap_index: *bootstrap_index, method_name, method_type })
        },
        RawConstant::MethodHandle { descriptor, index } => {
            if *index == 0 || *index as usize > constants.len() {
                return Err(LoadError::ConstantIndexOutOfRange);
            }
            cook_handle(constants, *descriptor, &constants[*index as usize - 1])
        },
        RawConstant::MethodType { index } => {
            proof {
                lemma_raw_str_short(pool, *index as int);
            }
            let t = raw_str_index(constants, *index as usize)?;
            let d = method_descriptor_of(&t)?;
            Ok(Constant::MethodType(d))
        },
        RawConstant::NameTypeDescriptor { name_desc_addr, type_addr } => {
            let name = raw_str_index(constants, *name_desc_addr as usize)?;
            let type_descriptor = raw_str_index(constants, *type_addr as usize)?;
            Ok(Constant::NameTypeDescriptor { name, type_descriptor })
        },
        RawConstant::String(s) => Ok(Constant::String(copy_chars(s))),
        RawConstant::StringRef { string_addr } => Ok(
            Constant::StringRef(raw_str_index(constants, *string_addr as usize)?),
        ),
        RawConstant::Placeholder => Ok(Constant::Placeholder),
    }
}

} // verus!
