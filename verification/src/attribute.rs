//! Attributes of classes, fields, methods and code, and the lookups into the
//! run-time constant pool that reading them needs.
use vstd::prelude::*;

use crate::class::{constants_view, Constant, ConstantView};
use crate::class_loader::{be16, be32, get_u16, get_u32, LoadError};
use crate::constant_pool::take_end;
use crate::text::{chars_eq, copy_chars};

verus! {

/// A named attribute with its raw bytes.
pub struct Attribute {
    pub name: Vec<char>,
    pub data: Vec<u8>,
}

/// The mathematical value of an `Attribute`.
pub struct AttributeView {
    pub name: Seq<char>,
    pub data: Seq<u8>,
}

impl View for Attribute {
    type V = AttributeView;

    open spec fn view(&self) -> AttributeView {
        AttributeView { name: self.name@, data: self.data@ }
    }
}

/// The view of each attribute of a list.
pub open spec fn attributes_view(s: Seq<Attribute>) -> Seq<AttributeView> {
    s.map_values(|a: Attribute| a@)
}

/// A copy of a byte vector.
pub fn copy_bytes(a: &Vec<u8>) -> (r: Vec<u8>)
    ensures
        r@ == a@,
{
    let mut r: Vec<u8> = Vec::new();
    let mut i: usize = 0;
    while i < a.len()
        invariant
            i <= a@.len(),
            r@ == a@.subrange(0, i as int),
        decreases a@.len() - i,
    {
        r.push(a[i]);
        i = i + 1;
        assert(r@ =~= a@.subrange(0, i as int));
    }
    assert(a@.subrange(0, a@.len() as int) =~= a@);
    r
}

impl Attribute {
    /// A copy of this attribute.
    pub fn copy(&self) -> (r: Attribute)
        ensures
            r@ == self@,
    {
        Attribute { name: copy_chars(&self.name), data: copy_bytes(&self.data) }
    }
}

/// The attributes that the class file format gives a meaning to here.
#[derive(Clone, Copy, PartialEq, Eq, Structural, Debug)]
pub enum AttributeName {
    ConstantValue,
    Code,
    Exceptions,
    Signature,
    BootstrapMethods,
    SourceFile,
    InnerClasses,
    NestHost,
    StackMapTable,
    LineNumberTable,
    LocalVariableTypeTable,
    LocalVariableTable,
}

/// The characters of a known attribute name.
pub open spec fn spec_attribute_name(n: AttributeName) -> Seq<char> {
    match n {
            AttributeName::ConstantValue => seq!['C', 'o', 'n', 's', 't', 'a', 'n', 't', 'V', 'a', 'l', 'u', 'e'],
            AttributeName::Code => seq!['C', 'o', 'd', 'e'],
            AttributeName::Exceptions => seq!['E', 'x', 'c', 'e', 'p', 't', 'i', 'o', 'n', 's'],
            AttributeName::Signature => seq!['S', 'i', 'g', 'n', 'a', 't', 'u', 'r', 'e'],
            AttributeName::BootstrapMethods => seq!['B', 'o', 'o', 't', 's', 't', 'r', 'a', 'p', 'M', 'e', 't', 'h', 'o', 'd', 's'],
            AttributeName::SourceFile => seq!['S', 'o', 'u', 'r', 'c', 'e', 'F', 'i', 'l', 'e'],
            AttributeName::InnerClasses => seq!['I', 'n', 'n', 'e', 'r', 'C', 'l', 'a', 's', 's', 'e', 's'],
            AttributeName::NestHost => seq!['N', 'e', 's', 't', 'H', 'o', 's', 't'],
            AttributeName::StackMapTable => seq!['S', 't', 'a', 'c', 'k', 'M', 'a', 'p', 'T', 'a', 'b', 'l', 'e'],
            AttributeName::LineNumberTable => seq!['L', 'i', 'n', 'e', 'N', 'u', 'm', 'b', 'e', 'r', 'T', 'a', 'b', 'l', 'e'],
            AttributeName::LocalVariableTypeTable => seq!['L', 'o', 'c', 'a', 'l', 'V', 'a', 'r', 'i', 'a', 'b', 'l', 'e', 'T', 'y', 'p', 'e', 'T', 'a', 'b', 'l', 'e'],
            AttributeName::LocalVariableTable => seq!['L', 'o', 'c', 'a', 'l', 'V', 'a', 'r', 'i', 'a', 'b', 'l', 'e', 'T', 'a', 'b', 'l', 'e'],
    }
}

/// The characters of a known attribute name.
pub fn attribute_name(n: AttributeName) -> (r: Vec<char>)
    ensures
        r@ == spec_attribute_name(n),
{
    match n {
            AttributeName::ConstantValue => vec!['C', 'o', 'n', 's', 't', 'a', 'n', 't', 'V', 'a', 'l', 'u', 'e'],
            AttributeName::Code => vec!['C', 'o', 'd', 'e'],
            AttributeName::Exceptions => vec!['E', 'x', 'c', 'e', 'p', 't', 'i', 'o', 'n', 's'],
            AttributeName::Signature => vec!['S', 'i', 'g', 'n', 'a', 't', 'u', 'r', 'e'],
            AttributeName::BootstrapMethods => vec!['B', 'o', 'o', 't', 's', 't', 'r', 'a', 'p', 'M', 'e', 't', 'h', 'o', 'd', 's'],
            AttributeName::SourceFile => vec!['S', 'o', 'u', 'r', 'c', 'e', 'F', 'i', 'l', 'e'],
            AttributeName::InnerClasses => vec!['I', 'n', 'n', 'e', 'r', 'C', 'l', 'a', 's', 's', 'e', 's'],
            AttributeName::NestHost => vec!['N', 'e', 's', 't', 'H', 'o', 's', 't'],
            AttributeName::StackMapTable => vec!['S', 't', 'a', 'c', 'k', 'M', 'a', 'p', 'T', 'a', 'b', 'l', 'e'],
            AttributeName::LineNumberTable => vec!['L', 'i', 'n', 'e', 'N', 'u', 'm', 'b', 'e', 'r', 'T', 'a', 'b', 'l', 'e'],
            AttributeName::LocalVariableTypeTable => vec!['L', 'o', 'c', 'a', 'l', 'V', 'a', 'r', 'i', 'a', 'b', 'l', 'e', 'T', 'y', 'p', 'e', 'T', 'a', 'b', 'l', 'e'],
            AttributeName::LocalVariableTable => vec!['L', 'o', 'c', 'a', 'l', 'V', 'a', 'r', 'i', 'a', 'b', 'l', 'e', 'T', 'a', 'b', 'l', 'e'],
    }
}


/// The string at the 1-based index `idx` of a run-time pool.
pub open spec fn spec_str(cs: Seq<ConstantView>, idx: int) -> Result<Seq<char>, LoadError> {
    if 1 <= idx <= cs.len() {
        match cs[idx - 1] {
            ConstantView::String(s) => Ok(s),
            _ => Err(LoadError::ExpectedString),
        }
    } else {
        Err(LoadError::ConstantIndexOutOfRange)
    }
}

/// The class name of the class reference at the 1-based index `idx` of a run-time pool.
pub open spec fn spec_class(cs: Seq<ConstantView>, idx: int) -> Result<Seq<char>, LoadError> {
    if 1 <= idx <= cs.len() {
        match cs[idx - 1] {
            ConstantView::ClassRef(s) => Ok(s),
            _ => Err(LoadError::ExpectedClassRef),
        }
    } else {
        Err(LoadError::ConstantIndexOutOfRange)
    }
}

/// Reads the string at the 1-based index `idx` of a run-time pool.
pub fn str_index(constants: &[Constant], idx: usize) -> (r: Result<Vec<char>, LoadError>)
    ensures
        match spec_str(constants_view(constants@), idx as int) {
            Ok(t) => r matches Ok(v) && v@ == t,
            Err(e) => r matches Err(e2) && e2 == e,
        },
{
    if idx == 0 || idx > constants.len() {
        return Err(LoadError::ConstantIndexOutOfRange);
    }
    match &constants[idx - 1] {
        Constant::String(s) => Ok(copy_chars(s)),
        _ => Err(LoadError::ExpectedString),
    }
}

/// Reads the class name of the class reference at the 1-based index `idx` of a run-time pool.
pub fn class_index(constants: &[Constant], idx: usize) -> (r: Result<Vec<char>, LoadError>)
    ensures
        match spec_class(constants_view(constants@), idx as int) {
            Ok(t) => r matches Ok(v) && v@ == t,
            Err(e) => r matches Err(e2) && e2 == e,
        },
{
    if idx == 0 || idx > constants.len() {
        return Err(LoadError::ConstantIndexOutOfRange);
    }
    match &constants[idx - 1] {
        Constant::ClassRef(s) => Ok(copy_chars(s)),
        _ => Err(LoadError::ExpectedClassRef),
    }
}

/// The attribute at `p`: a name index into the pool, a length, then that
/// many bytes (fewer where the input ends first); and the position after it.
pub open spec fn spec_attribute(cs: Seq<ConstantView>, b: Seq<u8>, p: int) -> Result<
    (AttributeView, int),
    LoadError,
> {
    if p < 0 || p + 2 > b.len() {
        Err(LoadError::UnexpectedEof)
    } else {
        match spec_str(cs, be16(b, p)) {
            Ok(name) => if p + 6 > b.len() {
                Err(LoadError::UnexpectedEof)
            } else {
                let start = p + 6;
                let end = take_end(b, start, be32(b, p + 2));
                Ok((AttributeView { name, data: b.subrange(start, end) }, end))
            },
            Err(e) => Err(e),
        }
    }
}

/// Reads the attribute at `*pos` and moves past it.
pub fn get_attribute(constants: &[Constant], bytes: &[u8], pos: &mut usize) -> (r: Result<
    Attribute,
    LoadError,
>)
    ensures
        match spec_attribute(constants_view(constants@), bytes@, *old(pos) as int) {
            Ok((a, q)) => r matches Ok(v) && v@ == a && *final(pos) == q,
            Err(e) => r matches Err(e2) && e2 == e,
        },
{
    let name_idx = get_u16(bytes, pos)?;
    let name = str_index(constants, name_idx as usize)?;
    let attr_length = get_u32(bytes, pos)?;
    let start = *pos;
    let end = if attr_length as usize <= bytes.len() - start {
        start + attr_length as usize
    } else {
        bytes.len()
    };
    let mut data: Vec<u8> = Vec::new();
    let mut i: usize = start;
    while i < end
        invariant
            start <= i <= end,
            end <= bytes@.len(),
            data@ == bytes@.subrange(start as int, i as int),
        decreases end - i,
    {
        data.push(bytes[i]);
        i = i + 1;
        assert(data@ =~= bytes@.subrange(start as int, i as int));
    }
    *pos = end;
    Ok(Attribute { name, data })
}

/// The `n` attributes at `p`, and the position after them.
pub open spec fn spec_attributes(cs: Seq<ConstantView>, b: Seq<u8>, p: int, n: nat) -> Result<
    (Seq<AttributeView>, int),
    LoadError,
>
    decreases n,
{
    if n == 0 {
        Ok((seq![], p))
    } else {
        match spec_attributes(cs, b, p, (n - 1) as nat) {
            Ok((attrs, q)) => match spec_attribute(cs, b, q) {
                Ok((a, r)) => Ok((attrs.push(a), r)),
                Err(e) => Err(e),
            },
            Err(e) => Err(e),
        }
    }
}

/// Reads `count` attributes at `*pos` and moves past them.
pub fn get_attributes(constants: &[Constant], bytes: &[u8], pos: &mut usize, count: u16) -> (r: Result<
    Vec<Attribute>,
    LoadError,
>)
    ensures
        match spec_attributes(constants_view(constants@), bytes@, *old(pos) as int, count as nat) {
            Ok((attrs, q)) => r matches Ok(v) && attributes_view(v@) == attrs && *final(pos) == q,
            Err(e) => r matches Err(e2) && e2 == e,
        },
{
    let ghost p0 = *pos as int;
    let ghost cs = constants_view(constants@);
    let mut out: Vec<Attribute> = Vec::new();
    let mut i: u16 = 0;
    while i < count
        invariant
            i <= count,
            p0 == *old(pos) as int,
            cs == constants_view(constants@),
            spec_attributes(cs, bytes@, p0, i as nat) matches Ok((attrs, q)) && attributes_view(
                out@,
            ) == attrs && *pos == q,
        decreases count - i,
    {
        let ghost before = out@;
        let a = match get_attribute(constants, bytes, pos) {
            Ok(a) => a,
            Err(e) => {
                proof {
                    lemma_attributes_err(cs, bytes@, p0, i as nat, count as nat);
                }
                return Err(e);
            },
        };
        out.push(a);
        proof {
            assert(attributes_view(out@) =~= attributes_view(before).push(a@));
        }
        i = i + 1;
    }
    Ok(out)
}

/// Once reading attributes fails, reading more fails the same way.
proof fn lemma_attributes_err(cs: Seq<ConstantView>, b: Seq<u8>, p: int, i: nat, n: nat)
    requires
        i < n,
        spec_attributes(cs, b, p, i) is Ok,
        spec_attribute(cs, b, spec_attributes(cs, b, p, i)->Ok_0.1) is Err,
    ensures
        spec_attributes(cs, b, p, n) is Err,
        spec_attributes(cs, b, p, n)->Err_0 == spec_attribute(
            cs,
            b,
            spec_attributes(cs, b, p, i)->Ok_0.1,
        )->Err_0,
    decreases n - i,
{
    if i + 1 < n {
        lemma_attributes_err(cs, b, p, i, (n - 1) as nat);
    }
}

/// The attributes of a list that carry the name `name`, in order.
pub open spec fn with_name(attrs: Seq<AttributeView>, name: Seq<char>) -> Seq<AttributeView>
    decreases attrs.len(),
{
    if attrs.len() == 0 {
        seq![]
    } else if attrs.last().name == name {
        with_name(attrs.drop_last(), name).push(attrs.last())
    } else {
        with_name(attrs.drop_last(), name)
    }
}

/// The attributes of a list that carry another name, in order.
pub open spec fn without_name(attrs: Seq<AttributeView>, name: Seq<char>) -> Seq<AttributeView>
    decreases attrs.len(),
{
    if attrs.len() == 0 {
        seq![]
    } else if attrs.last().name != name {
        without_name(attrs.drop_last(), name).push(attrs.last())
    } else {
        without_name(attrs.drop_last(), name)
    }
}

/// Splits a list of attributes into those named `compare` and the others,
/// each in its original order.
pub fn split_attributes(attributes: &Vec<Attribute>, compare: &[char]) -> (r: (
    Vec<Attribute>,
    Vec<Attribute>,
))
    ensures
        attributes_view(r.0@) == with_name(attributes_view(attributes@), compare@),
        attributes_view(r.1@) == without_name(attributes_view(attributes@), compare@),
{
    let ghost all = attributes_view(attributes@);
    let mut matching: Vec<Attribute> = Vec::new();
    let mut others: Vec<Attribute> = Vec::new();
    let mut i: usize = 0;
    while i < attributes.len()
        invariant
            i <= attributes@.len(),
            all == attributes_view(attributes@),
            attributes_view(matching@) == with_name(all.subrange(0, i as int), compare@),
            attributes_view(others@) == without_name(all.subrange(0, i as int), compare@),
        decreases attributes@.len() - i,
    {
        let ghost m0 = attributes_view(matching@);
        let ghost o0 = attributes_view(others@);
        assert(all.subrange(0, i + 1).drop_last() =~= all.subrange(0, i as int));
        let a = attributes[i].copy();
        if chars_eq(a.name.as_slice(), compare) {
            matching.push(a);
            assert(attributes_view(matching@) =~= m0.push(all[i as int]));
        } else {
            others.push(a);
            assert(attributes_view(others@) =~= o0.push(all[i as int]));
        }
        i = i + 1;
    }
    assert(all.subrange(0, i as int) =~= all);
    (matching, others)
}

/// The data of the single attribute named `compare`, if there is one, and
/// the other attributes; refused when there are two or more.
pub open spec fn spec_single_attribute(attrs: Seq<AttributeView>, compare: Seq<char>) -> Result<
    (Option<Seq<u8>>, Seq<AttributeView>),
    LoadError,
> {
    let found = with_name(attrs, compare);
    if found.len() == 0 {
        Ok((None, without_name(attrs, compare)))
    } else if found.len() == 1 {
        Ok((Some(found[0].data), without_name(attrs, compare)))
    } else {
        Err(LoadError::DuplicateAttribute)
    }
}

/// Takes the single attribute named `compare` out of a list (see `spec_single_attribute`).
pub fn single_attribute(attributes: &Vec<Attribute>, compare: &[char]) -> (r: Result<
    (Option<Vec<u8>>, Vec<Attribute>),
    LoadError,
>)
    ensures
        match spec_single_attribute(attributes_view(attributes@), compare@) {
            Ok((found, rest)) => r matches Ok((f, v)) && attributes_view(v@) == rest && match found {
                Some(d) => f matches Some(fd) && fd@ == d,
                None => f is None,
            },
            Err(e) => r matches Err(e2) && e2 == e,
        },
{
    let (matching, others) = split_attributes(attributes, compare);
    if matching.len() == 0 {
        Ok((None, others))
    } else if matching.len() == 1 {
        assert(attributes_view(matching@)[0] == matching@[0]@);
        Ok((Some(copy_bytes(&matching[0].data)), others))
    } else {
        Err(LoadError::DuplicateAttribute)
    }
}

/// The generic signature that a `Signature` attribute names, if there is
/// one, and the other attributes.
pub open spec fn spec_signature(cs: Seq<ConstantView>, attrs: Seq<AttributeView>) -> Result<
    (Option<Seq<char>>, Seq<AttributeView>),
    LoadError,
> {
    match spec_single_attribute(attrs, spec_attribute_name(AttributeName::Signature)) {
        Ok((None, rest)) => Ok((None, rest)),
        Ok((Some(d), rest)) => if d.len() < 2 {
            Err(LoadError::UnexpectedEof)
        } else {
            let idx = be16(d, 0);
            if 1 <= idx <= cs.len() {
                match cs[idx - 1] {
                    ConstantView::String(s) => Ok((Some(s), rest)),
                    _ => Err(LoadError::ExpectedSignatureString),
                }
            } else {
                Err(LoadError::ConstantIndexOutOfRange)
            }
        },
        Err(e) => Err(e),
    }
}

/// Takes the `Signature` attribute out of a list and resolves the signature it names.
pub fn get_signature(constants: &[Constant], attributes: &Vec<Attribute>) -> (r: Result<
    (Option<Vec<char>>, Vec<Attribute>),
    LoadError,
>)
    ensures
        match spec_signature(constants_view(constants@), attributes_view(attributes@)) {
            Ok((sig, rest)) => r matches Ok((s, v)) && attributes_view(v@) == rest && match sig {
                Some(t) => s matches Some(st) && st@ == t,
                None => s is None,
            },
            Err(e) => r matches Err(e2) && e2 == e,
        },
{
    let name = attribute_name(AttributeName::Signature);
    let (found, rest) = single_attribute(attributes, name.as_slice())?;
    match found {
        None => Ok((None, rest)),
        Some(data) => {
            let mut p: usize = 0;
            let idx = get_u16(data.as_slice(), &mut p)? as usize;
            if idx == 0 || idx > constants.len() {
                return Err(LoadError::ConstantIndexOutOfRange);
            }
            match &constants[idx - 1] {
                Constant::String(s) => Ok((Some(copy_chars(s)), rest)),
                _ => Err(LoadError::ExpectedSignatureString),
            }
        },
    }
}

} // verus!
