//! The `Code` attribute of a method: its tables and their parsing.
use vstd::prelude::*;

use crate::attribute::{
    attributes_view, class_index, spec_class, spec_str, str_index, Attribute, AttributeView,
};
use crate::class::{constants_view, Constant, ConstantView, FieldType, FieldTypeView};
use crate::class_loader::{
    be16, get_u16, lemma_repeat_err, parse_field_type, spec_field_type, spec_repeat, LoadError,
};
use crate::instruction::{Instruction, InstructionView};

verus! {

/// A source line and the first instruction index of it.
#[derive(Clone, Copy, PartialEq, Eq, Structural, Debug)]
pub struct LineTableEntry {
    /// the line of source code
    pub line: u16,
    /// the first instruction index of the line
    pub pc: u16,
}

/// A local variable, with generics, defined within a range of instruction indices.
pub struct LocalVarTypeEntry {
    /// the start of the range
    pub pc: u16,
    /// the length of the range
    pub length: u16,
    /// the name of the variable
    pub name: Vec<char>,
    /// the type of the variable, including generics
    pub ty: Vec<char>,
    /// the index into locals of the variable
    pub index: u16,
}

/// The mathematical value of a `LocalVarTypeEntry`.
pub struct LocalVarTypeEntryView {
    pub pc: u16,
    pub length: u16,
    pub name: Seq<char>,
    pub ty: Seq<char>,
    pub index: u16,
}

impl View for LocalVarTypeEntry {
    type V = LocalVarTypeEntryView;

    open spec fn view(&self) -> LocalVarTypeEntryView {
        LocalVarTypeEntryView {
            pc: self.pc,
            length: self.length,
            name: self.name@,
            ty: self.ty@,
            index: self.index,
        }
    }
}

/// A local variable defined within a range of instruction indices.
pub struct LocalVarEntry {
    /// the start of the range
    pub pc: u16,
    /// the length of the range
    pub length: u16,
    /// the name of the variable
    pub name: Vec<char>,
    /// the type of the variable, excluding generics
    pub ty: FieldType,
    /// the index into locals of the variable
    pub index: u16,
}

/// The mathematical value of a `LocalVarEntry`.
pub struct LocalVarEntryView {
    pub pc: u16,
    pub length: u16,
    pub name: Seq<char>,
    pub ty: FieldTypeView,
    pub index: u16,
}

impl View for LocalVarEntry {
    type V = LocalVarEntryView;

    open spec fn view(&self) -> LocalVarEntryView {
        LocalVarEntryView {
            pc: self.pc,
            length: self.length,
            name: self.name@,
            ty: self.ty@,
            index: self.index,
        }
    }
}

/// An entry of a method's exception-handling table.
pub struct ExceptionTableEntry {
    /// start of the "try" block
    pub start_pc: u16,
    /// end of the "try" block
    pub end_pc: u16,
    /// start of the "catch" block
    pub handler_pc: u16,
    /// type of the exception; `None` catches everything
    pub catch_type: Option<Vec<char>>,
}

/// The mathematical value of an `ExceptionTableEntry`.
pub struct ExceptionTableEntryView {
    pub start_pc: u16,
    pub end_pc: u16,
    pub handler_pc: u16,
    pub catch_type: Option<Seq<char>>,
}

impl View for ExceptionTableEntry {
    type V = ExceptionTableEntryView;

    open spec fn view(&self) -> ExceptionTableEntryView {
        ExceptionTableEntryView {
            start_pc: self.start_pc,
            end_pc: self.end_pc,
            handler_pc: self.handler_pc,
            catch_type: match &self.catch_type {
                Some(c) => Some(c@),
                None => None,
            },
        }
    }
}

/// The type of a local or stack entry in a stack map frame.
pub enum VerificationTypeInfo {
    Top,
    Integer,
    Float,
    Null,
    UninitializedThis,
    Object { class_name: Vec<char> },
    Uninitialized { offset: u16 },
    Long,
    Double,
}

/// The mathematical value of a `VerificationTypeInfo`.
pub enum VerificationTypeInfoView {
    Top,
    Integer,
    Float,
    Null,
    UninitializedThis,
    Object { class_name: Seq<char> },
    Uninitialized { offset: u16 },
    Long,
    Double,
}

impl View for VerificationTypeInfo {
    type V = VerificationTypeInfoView;

    open spec fn view(&self) -> VerificationTypeInfoView {
        match self {
            VerificationTypeInfo::Top => VerificationTypeInfoView::Top,
            VerificationTypeInfo::Integer => VerificationTypeInfoView::Integer,
            VerificationTypeInfo::Float => VerificationTypeInfoView::Float,
            VerificationTypeInfo::Null => VerificationTypeInfoView::Null,
            VerificationTypeInfo::UninitializedThis => VerificationTypeInfoView::UninitializedThis,
            VerificationTypeInfo::Object { class_name } => VerificationTypeInfoView::Object {
                class_name: class_name@,
            },
            VerificationTypeInfo::Uninitialized { offset } =>
                VerificationTypeInfoView::Uninitialized { offset: *offset },
            VerificationTypeInfo::Long => VerificationTypeInfoView::Long,
            VerificationTypeInfo::Double => VerificationTypeInfoView::Double,
        }
    }
}

/// The view of each verification type of a list.
pub open spec fn vtis_view(s: Seq<VerificationTypeInfo>) -> Seq<VerificationTypeInfoView> {
    s.map_values(|v: VerificationTypeInfo| v@)
}

/// A frame of a `StackMapTable` attribute.
#[allow(inconsistent_fields)]
pub enum StackMapFrame {
    Same { offset_delta: u8 },
    SameLocals1Stack { offset_delta: u8, verification: VerificationTypeInfo },
    SameLocals1StackExtended { offset_delta: u16, verification: VerificationTypeInfo },
    Chop { chop: u8, offset_delta: u16 },
    SameExtended { offset_delta: u16 },
    Append { offset_delta: u16, locals: Vec<VerificationTypeInfo> },
    Full {
        offset_delta: u16,
        locals: Vec<VerificationTypeInfo>,
        stack: Vec<VerificationTypeInfo>,
    },
}

/// The mathematical value of a `StackMapFrame`.
#[allow(inconsistent_fields)]
pub enum StackMapFrameView {
    Same { offset_delta: u8 },
    SameLocals1Stack { offset_delta: u8, verification: VerificationTypeInfoView },
    SameLocals1StackExtended { offset_delta: u16, verification: VerificationTypeInfoView },
    Chop { chop: u8, offset_delta: u16 },
    SameExtended { offset_delta: u16 },
    Append { offset_delta: u16, locals: Seq<VerificationTypeInfoView> },
    Full {
        offset_delta: u16,
        locals: Seq<VerificationTypeInfoView>,
        stack: Seq<VerificationTypeInfoView>,
    },
}

impl View for StackMapFrame {
    type V = StackMapFrameView;

    open spec fn view(&self) -> StackMapFrameView {
        match self {
            StackMapFrame::Same { offset_delta } => StackMapFrameView::Same {
                offset_delta: *offset_delta,
            },
            StackMapFrame::SameLocals1Stack { offset_delta, verification } =>
                StackMapFrameView::SameLocals1Stack {
                    offset_delta: *offset_delta,
                    verification: verification@,
                },
            StackMapFrame::SameLocals1StackExtended { offset_delta, verification } =>
                StackMapFrameView::SameLocals1StackExtended {
                    offset_delta: *offset_delta,
                    verification: verification@,
                },
            StackMapFrame::Chop { chop, offset_delta } => StackMapFrameView::Chop {
                chop: *chop,
                offset_delta: *offset_delta,
            },
            StackMapFrame::SameExtended { offset_delta } => StackMapFrameView::SameExtended {
                offset_delta: *offset_delta,
            },
            StackMapFrame::Append { offset_delta, locals } => StackMapFrameView::Append {
                offset_delta: *offset_delta,
                locals: vtis_view(locals@),
            },
            StackMapFrame::Full { offset_delta, locals, stack } => StackMapFrameView::Full {
                offset_delta: *offset_delta,
                locals: vtis_view(locals@),
                stack: vtis_view(stack@),
            },
        }
    }
}

/// The verification type at `p`, and the position after it.
pub open spec fn spec_verification_type(cs: Seq<ConstantView>, b: Seq<u8>, p: int) -> Result<
    (VerificationTypeInfoView, int),
    LoadError,
> {
    if p < 0 || p >= b.len() {
        Err(LoadError::BadVerificationType(None))
    } else {
        let tag = b[p];
        let q = p + 1;
        if tag == 0 {
            Ok((VerificationTypeInfoView::Top, q))
        } else if tag == 1 {
            Ok((VerificationTypeInfoView::Integer, q))
        } else if tag == 2 {
            Ok((VerificationTypeInfoView::Float, q))
        } else if tag == 3 {
            Ok((VerificationTypeInfoView::Double, q))
        } else if tag == 4 {
            Ok((VerificationTypeInfoView::Long, q))
        } else if tag == 5 {
            Ok((VerificationTypeInfoView::Null, q))
        } else if tag == 6 {
            Ok((VerificationTypeInfoView::UninitializedThis, q))
        } else if tag == 7 || tag == 8 {
            if q + 2 > b.len() {
                Err(LoadError::UnexpectedEof)
            } else if tag == 8 {
                Ok((VerificationTypeInfoView::Uninitialized { offset: be16(b, q) as u16 }, q + 2))
            } else {
                match spec_class(cs, be16(b, q)) {
                    Ok(c) => Ok((VerificationTypeInfoView::Object { class_name: c }, q + 2)),
                    Err(e) => Err(e),
                }
            }
        } else {
            Err(LoadError::BadVerificationType(Some(tag)))
        }
    }
}

/// `spec_verification_type` as an item reader.
pub open spec fn vti_item(cs: Seq<ConstantView>, b: Seq<u8>) -> spec_fn(int) -> Result<
    (VerificationTypeInfoView, int),
    LoadError,
> {
    |q: int| spec_verification_type(cs, b, q)
}

/// Reads the verification type at `*pos` and moves past it.
pub fn parse_verification_type(constants: &[Constant], bytes: &[u8], pos: &mut usize) -> (r: Result<
    VerificationTypeInfo,
    LoadError,
>)
    ensures
        match spec_verification_type(constants_view(constants@), bytes@, *old(pos) as int) {
            Ok((v, q)) => r matches Ok(x) && x@ == v && *final(pos) == q,
            Err(e) => r matches Err(e2) && e2 == e,
        },
{
    if *pos >= bytes.len() {
        return Err(LoadError::BadVerificationType(None));
    }
    let tag = bytes[*pos];
    *pos = *pos + 1;
    match tag {
        0 => Ok(VerificationTypeInfo::Top),
        1 => Ok(VerificationTypeInfo::Integer),
        2 => Ok(VerificationTypeInfo::Float),
        3 => Ok(VerificationTypeInfo::Double),
        4 => Ok(VerificationTypeInfo::Long),
        5 => Ok(VerificationTypeInfo::Null),
        6 => Ok(VerificationTypeInfo::UninitializedThis),
        7 => {
            let index = get_u16(bytes, pos)?;
            let class_name = class_index(constants, index as usize)?;
            Ok(VerificationTypeInfo::Object { class_name })
        },
        8 => {
            let offset = get_u16(bytes, pos)?;
            Ok(VerificationTypeInfo::Uninitialized { offset })
        },
        _ => Err(LoadError::BadVerificationType(Some(tag))),
    }
}

/// Reads `n` verification types at `*pos` and moves past them.
fn parse_verification_types(constants: &[Constant], bytes: &[u8], pos: &mut usize, n: u16) -> (r: Result<
    Vec<VerificationTypeInfo>,
    LoadError,
>)
    ensures
        match spec_repeat(vti_item(constants_view(constants@), bytes@), *old(pos) as int, n as nat) {
            Ok((vs, q)) => r matches Ok(x) && vtis_view(x@) == vs && *final(pos) == q,
            Err(e) => r matches Err(e2) && e2 == e,
        },
{
    let ghost p0 = *pos as int;
    let ghost item = vti_item(constants_view(constants@), bytes@);
    let mut out: Vec<VerificationTypeInfo> = Vec::new();
    let mut i: u16 = 0;
    while i < n
        invariant
            i <= n,
            p0 == *old(pos) as int,
            item == vti_item(constants_view(constants@), bytes@),
            spec_repeat(item, p0, i as nat) matches Ok((vs, q)) && vtis_view(out@) == vs && *pos == q,
        decreases n - i,
    {
        let ghost before = out@;
        let v = match parse_verification_type(constants, bytes, pos) {
            Ok(v) => v,
            Err(e) => {
                proof {
                    lemma_repeat_err(item, p0, i as nat, n as nat);
                }
                return Err(e);
            },
        };
        out.push(v);
        proof {
            assert(vtis_view(out@) =~= vtis_view(before).push(v@));
        }
        i = i + 1;
    }
    Ok(out)
}


/// The stack map frame at `p`, and the position after it.
pub open spec fn spec_frame(cs: Seq<ConstantView>, b: Seq<u8>, p: int) -> Result<
    (StackMapFrameView, int),
    LoadError,
> {
    if p < 0 || p >= b.len() {
        Err(LoadError::BadStackMapFrame(None))
    } else {
        let t = b[p];
        let q = p + 1;
        if t <= 63 {
            Ok((StackMapFrameView::Same { offset_delta: t }, q))
        } else if t <= 127 {
            match spec_verification_type(cs, b, q) {
                Ok((v, r)) => Ok(
                    (StackMapFrameView::SameLocals1Stack { offset_delta: t & 0x3F, verification: v }, r),
                ),
                Err(e) => Err(e),
            }
        } else if t < 247 {
            Err(LoadError::BadStackMapFrame(Some(t)))
        } else if q + 2 > b.len() {
            Err(LoadError::UnexpectedEof)
        } else {
            let d = be16(b, q) as u16;
            let r = q + 2;
            if t == 247 {
                match spec_verification_type(cs, b, r) {
                    Ok((v, r2)) => Ok(
                        (
                            StackMapFrameView::SameLocals1StackExtended {
                                offset_delta: d,
                                verification: v,
                            },
                            r2,
                        ),
                    ),
                    Err(e) => Err(e),
                }
            } else if t <= 250 {
                Ok((StackMapFrameView::Chop { chop: (251 - t) as u8, offset_delta: d }, r))
            } else if t == 251 {
                Ok((StackMapFrameView::SameExtended { offset_delta: d }, r))
            } else if t <= 254 {
                match spec_repeat(vti_item(cs, b), r, (t - 251) as nat) {
                    Ok((locals, r2)) => Ok((StackMapFrameView::Append { offset_delta: d, locals }, r2)),
                    Err(e) => Err(e),
                }
            } else if r + 2 > b.len() {
                Err(LoadError::UnexpectedEof)
            } else {
                match spec_repeat(vti_item(cs, b), r + 2, be16(b, r) as nat) {
                    Ok((locals, r2)) => if r2 + 2 > b.len() {
                        Err(LoadError::UnexpectedEof)
                    } else {
                        match spec_repeat(vti_item(cs, b), r2 + 2, be16(b, r2) as nat) {
                            Ok((stack, r3)) => Ok(
                                (StackMapFrameView::Full { offset_delta: d, locals, stack }, r3),
                            ),
                            Err(e) => Err(e),
                        }
                    },
                    Err(e) => Err(e),
                }
            }
        }
    }
}

/// `spec_frame` as an item reader.
pub open spec fn frame_item(cs: Seq<ConstantView>, b: Seq<u8>) -> spec_fn(int) -> Result<
    (StackMapFrameView, int),
    LoadError,
> {
    |q: int| spec_frame(cs, b, q)
}

/// Reads the stack map frame at `*pos` and moves past it.
pub fn parse_frame(constants: &[Constant], bytes: &[u8], pos: &mut usize) -> (r: Result<
    StackMapFrame,
    LoadError,
>)
    ensures
        match spec_frame(constants_view(constants@), bytes@, *old(pos) as int) {
            Ok((v, q)) => r matches Ok(x) && x@ == v && *final(pos) == q,
            Err(e) => r matches Err(e2) && e2 == e,
        },
{
    if *pos >= bytes.len() {
        return Err(LoadError::BadStackMapFrame(None));
    }
    let t = bytes[*pos];
    *pos = *pos + 1;
    if t <= 63 {
        return Ok(StackMapFrame::Same { offset_delta: t });
    }
    if t <= 127 {
        let verification = parse_verification_type(constants, bytes, pos)?;
        return Ok(StackMapFrame::SameLocals1Stack { offset_delta: t & 0x3F, verification });
    }
    if t < 247 {
        return Err(LoadError::BadStackMapFrame(Some(t)));
    }
    let offset_delta = get_u16(bytes, pos)?;
    if t == 247 {
        let verification = parse_verification_type(constants, bytes, pos)?;
        Ok(StackMapFrame::SameLocals1StackExtended { offset_delta, verification })
    } else if t <= 250 {
        Ok(StackMapFrame::Chop { chop: 251 - t, offset_delta })
    } else if t == 251 {
        Ok(StackMapFrame::SameExtended { offset_delta })
    } else if t <= 254 {
        let locals = parse_verification_types(constants, bytes, pos, (t - 251) as u16)?;
        Ok(StackMapFrame::Append { offset_delta, locals })
    } else {
        let locals_count = get_u16(bytes, pos)?;
        let locals = parse_verification_types(constants, bytes, pos, locals_count)?;
        let stack_count = get_u16(bytes, pos)?;
        let stack = parse_verification_types(constants, bytes, pos, stack_count)?;
        Ok(StackMapFrame::Full { offset_delta, locals, stack })
    }
}

/// The view of each frame of a list.
pub open spec fn frames_view(s: Seq<StackMapFrame>) -> Seq<StackMapFrameView> {
    s.map_values(|f: StackMapFrame| f@)
}

/// The frames of a `StackMapTable` attribute: a count, then the frames.
pub open spec fn spec_stack_map(cs: Seq<ConstantView>, b: Seq<u8>) -> Result<Seq<StackMapFrameView>, LoadError> {
    if b.len() < 2 {
        Err(LoadError::UnexpectedEof)
    } else {
        match spec_repeat(frame_item(cs, b), 2, be16(b, 0) as nat) {
            Ok((fs, _)) => Ok(fs),
            Err(e) => Err(e),
        }
    }
}

/// Reads the frames of a `StackMapTable` attribute.
pub fn parse_stack_map(constants: &[Constant], bytes: &[u8]) -> (r: Result<
    Vec<StackMapFrame>,
    LoadError,
>)
    ensures
        match spec_stack_map(constants_view(constants@), bytes@) {
            Ok(fs) => r matches Ok(x) && frames_view(x@) == fs,
            Err(e) => r matches Err(e2) && e2 == e,
        },
{
    let mut pos: usize = 0;
    let n = get_u16(bytes, &mut pos)?;
    let ghost item = frame_item(constants_view(constants@), bytes@);
    let mut out: Vec<StackMapFrame> = Vec::new();
    let mut i: u16 = 0;
    while i < n
        invariant
            i <= n,
            n == be16(bytes@, 0),
            bytes@.len() >= 2,
            item == frame_item(constants_view(constants@), bytes@),
            spec_repeat(item, 2, i as nat) matches Ok((fs, q)) && frames_view(out@) == fs && pos == q,
        decreases n - i,
    {
        let ghost before = out@;
        let f = match parse_frame(constants, bytes, &mut pos) {
            Ok(f) => f,
            Err(e) => {
                proof {
                    lemma_repeat_err(item, 2, i as nat, n as nat);
                }
                return Err(e);
            },
        };
        out.push(f);
        proof {
            assert(frames_view(out@) =~= frames_view(before).push(f@));
        }
        i = i + 1;
    }
    Ok(out)
}

/// The entries of a `LineNumberTable` attribute: a count, then `(line, pc)` pairs.
pub open spec fn spec_line_table(b: Seq<u8>) -> Result<Seq<LineTableEntry>, LoadError> {
    if b.len() < 2 {
        Err(LoadError::UnexpectedEof)
    } else if 2 + 4 * be16(b, 0) > b.len() {
        Err(LoadError::UnexpectedEof)
    } else {
        Ok(
            Seq::new(
                be16(b, 0) as nat,
                |k: int| LineTableEntry { line: be16(b, 2 + 4 * k) as u16, pc: be16(b, 4 + 4 * k) as u16 },
            ),
        )
    }
}

/// Reads the entries of a `LineNumberTable` attribute.
pub fn parse_line_table(bytes: &[u8]) -> (r: Result<Vec<LineTableEntry>, LoadError>)
    ensures
        match spec_line_table(bytes@) {
            Ok(es) => r matches Ok(x) && x@ == es,
            Err(e) => r matches Err(e2) && e2 == e,
        },
{
    let mut pos: usize = 0;
    let n = get_u16(bytes, &mut pos)?;
    if n as usize > (bytes.len() - 2) / 4 {
        return Err(LoadError::UnexpectedEof);
    }
    let mut out: Vec<LineTableEntry> = Vec::new();
    let mut i: u16 = 0;
    while i < n
        invariant
            i <= n,
            n == be16(bytes@, 0),
            2 + 4 * n <= bytes@.len(),
            pos == 2 + 4 * i,
            out@ =~= Seq::new(
                i as nat,
                |k: int|
                    LineTableEntry {
                        line: be16(bytes@, 2 + 4 * k) as u16,
                        pc: be16(bytes@, 4 + 4 * k) as u16,
                    },
            ),
        decreases n - i,
    {
        let line = get_u16(bytes, &mut pos)?;
        let pc = get_u16(bytes, &mut pos)?;
        out.push(LineTableEntry { line, pc });
        i = i + 1;
    }
    Ok(out)
}

/// The entry of a `LocalVariableTypeTable` at `p`: pc, length, name index,
/// signature index and local index, each a `u16`.
pub open spec fn spec_local_type_entry(cs: Seq<ConstantView>, b: Seq<u8>, p: int) -> Result<
    (LocalVarTypeEntryView, int),
    LoadError,
> {
    if p < 0 || p + 10 > b.len() {
        Err(LoadError::UnexpectedEof)
    } else {
        match spec_str(cs, be16(b, p + 4)) {
            Ok(name) => match spec_str(cs, be16(b, p + 6)) {
                Ok(ty) => Ok(
                    (
                        LocalVarTypeEntryView {
                            pc: be16(b, p) as u16,
                            length: be16(b, p + 2) as u16,
                            name,
                            ty,
                            index: be16(b, p + 8) as u16,
                        },
                        p + 10,
                    ),
                ),
                Err(e) => Err(e),
            },
            Err(e) => Err(e),
        }
    }
}

/// The entry of a `LocalVariableTable` at `p`: as in `spec_local_type_entry`,
/// with the type parsed from its descriptor.
pub open spec fn spec_local_entry(cs: Seq<ConstantView>, b: Seq<u8>, p: int) -> Result<
    (LocalVarEntryView, int),
    LoadError,
> {
    if p < 0 || p + 10 > b.len() {
        Err(LoadError::UnexpectedEof)
    } else {
        match spec_str(cs, be16(b, p + 4)) {
            Ok(name) => match spec_str(cs, be16(b, p + 6)) {
                Ok(t) => match spec_field_type(t, 0) {
                    Ok((ty, _)) => Ok(
                        (
                            LocalVarEntryView {
                                pc: be16(b, p) as u16,
                                length: be16(b, p + 2) as u16,
                                name,
                                ty,
                                index: be16(b, p + 8) as u16,
                            },
                            p + 10,
                        ),
                    ),
                    Err(e) => Err(e),
                },
                Err(e) => Err(e),
            },
            Err(e) => Err(e),
        }
    }
}

/// `spec_local_type_entry` as an item reader.
pub open spec fn local_type_item(cs: Seq<ConstantView>, b: Seq<u8>) -> spec_fn(int) -> Result<
    (LocalVarTypeEntryView, int),
    LoadError,
> {
    |q: int| spec_local_type_entry(cs, b, q)
}

/// `spec_local_entry` as an item reader.
pub open spec fn local_item(cs: Seq<ConstantView>, b: Seq<u8>) -> spec_fn(int) -> Result<
    (LocalVarEntryView, int),
    LoadError,
> {
    |q: int| spec_local_entry(cs, b, q)
}

/// The entries of a local-variable table attribute read by `item`: a count, then the entries.
pub open spec fn spec_table<T>(b: Seq<u8>, item: spec_fn(int) -> Result<(T, int), LoadError>) -> Result<
    Seq<T>,
    LoadError,
> {
    if b.len() < 2 {
        Err(LoadError::UnexpectedEof)
    } else {
        match spec_repeat(item, 2, be16(b, 0) as nat) {
            Ok((es, _)) => Ok(es),
            Err(e) => Err(e),
        }
    }
}

fn parse_local_type_entry(constants: &[Constant], bytes: &[u8], pos: &mut usize) -> (r: Result<
    LocalVarTypeEntry,
    LoadError,
>)
    ensures
        match spec_local_type_entry(constants_view(constants@), bytes@, *old(pos) as int) {
            Ok((v, q)) => r matches Ok(x) && x@ == v && *final(pos) == q,
            Err(e) => r matches Err(e2) && e2 == e,
        },
{
    if *pos > bytes.len() || bytes.len() - *pos < 10 {
        return Err(LoadError::UnexpectedEof);
    }
    let pc = get_u16(bytes, pos)?;
    let length = get_u16(bytes, pos)?;
    let name_idx = get_u16(bytes, pos)?;
    let ty_idx = get_u16(bytes, pos)?;
    let index = get_u16(bytes, pos)?;
    let name = str_index(constants, name_idx as usize)?;
    let ty = str_index(constants, ty_idx as usize)?;
    Ok(LocalVarTypeEntry { pc, length, name, ty, index })
}

fn parse_local_entry(constants: &[Constant], bytes: &[u8], pos: &mut usize) -> (r: Result<
    LocalVarEntry,
    LoadError,
>)
    ensures
        match spec_local_entry(constants_view(constants@), bytes@, *old(pos) as int) {
            Ok((v, q)) => r matches Ok(x) && x@ == v && *final(pos) == q,
            Err(e) => r matches Err(e2) && e2 == e,
        },
{
    if *pos > bytes.len() || bytes.len() - *pos < 10 {
        return Err(LoadError::UnexpectedEof);
    }
    let pc = get_u16(bytes, pos)?;
    let length = get_u16(bytes, pos)?;
    let name_idx = get_u16(bytes, pos)?;
    let ty_idx = get_u16(bytes, pos)?;
    let index = get_u16(bytes, pos)?;
    let name = str_index(constants, name_idx as usize)?;
    let ty_chars = str_index(constants, ty_idx as usize)?;
    let mut tpos: usize = 0;
    let ty = parse_field_type(ty_chars.as_slice(), &mut tpos)?;
    Ok(LocalVarEntry { pc, length, name, ty, index })
}

/// The view of each entry of a list.
pub open spec fn local_types_view(s: Seq<LocalVarTypeEntry>) -> Seq<LocalVarTypeEntryView> {
    s.map_values(|e: LocalVarTypeEntry| e@)
}

/// The view of each entry of a list.
pub open spec fn locals_view(s: Seq<LocalVarEntry>) -> Seq<LocalVarEntryView> {
    s.map_values(|e: LocalVarEntry| e@)
}

/// Reads the entries of a `LocalVariableTypeTable` attribute.
pub fn parse_local_type_table(constants: &[Constant], bytes: &[u8]) -> (r: Result<
    Vec<LocalVarTypeEntry>,
    LoadError,
>)
    ensures
        match spec_table(bytes@, local_type_item(constants_view(constants@), bytes@)) {
            Ok(es) => r matches Ok(x) && local_types_view(x@) == es,
            Err(e) => r matches Err(e2) && e2 == e,
        },
{
    let mut pos: usize = 0;
    let n = get_u16(bytes, &mut pos)?;
    let ghost item = local_type_item(constants_view(constants@), bytes@);
    let mut out: Vec<LocalVarTypeEntry> = Vec::new();
    let mut i: u16 = 0;
    while i < n
        invariant
            i <= n,
            n == be16(bytes@, 0),
            bytes@.len() >= 2,
            item == local_type_item(constants_view(constants@), bytes@),
            spec_repeat(item, 2, i as nat) matches Ok((es, q)) && local_types_view(out@) == es
                && pos == q,
        decreases n - i,
    {
        let ghost before = out@;
        let e = match parse_local_type_entry(constants, bytes, &mut pos) {
            Ok(e) => e,
            Err(err) => {
                proof {
                    lemma_repeat_err(item, 2, i as nat, n as nat);
                }
                return Err(err);
            },
        };
        out.push(e);
        proof {
            assert(local_types_view(out@) =~= local_types_view(before).push(e@));
        }
        i = i + 1;
    }
    Ok(out)
}

/// Reads the entries of a `LocalVariableTable` attribute.
pub fn parse_local_table(constants: &[Constant], bytes: &[u8]) -> (r: Result<
    Vec<LocalVarEntry>,
    LoadError,
>)
    ensures
        match spec_table(bytes@, local_item(constants_view(constants@), bytes@)) {
            Ok(es) => r matches Ok(x) && locals_view(x@) == es,
            Err(e) => r matches Err(e2) && e2 == e,
        },
{
    let mut pos: usize = 0;
    let n = get_u16(bytes, &mut pos)?;
    let ghost item = local_item(constants_view(constants@), bytes@);
    let mut out: Vec<LocalVarEntry> = Vec::new();
    let mut i: u16 = 0;
    while i < n
        invariant
            i <= n,
            n == be16(bytes@, 0),
            bytes@.len() >= 2,
            item == local_item(constants_view(constants@), bytes@),
            spec_repeat(item, 2, i as nat) matches Ok((es, q)) && locals_view(out@) == es && pos
                == q,
        decreases n - i,
    {
        let ghost before = out@;
        let e = match parse_local_entry(constants, bytes, &mut pos) {
            Ok(e) => e,
            Err(err) => {
                proof {
                    lemma_repeat_err(item, 2, i as nat, n as nat);
                }
                return Err(err);
            },
        };
        out.push(e);
        proof {
            assert(locals_view(out@) =~= locals_view(before).push(e@));
        }
        i = i + 1;
    }
    Ok(out)
}


/// The view of each instruction of a list.
pub open spec fn instructions_view(s: Seq<Instruction>) -> Seq<InstructionView> {
    s.map_values(|i: Instruction| i@)
}

/// The view of each exception-table entry of a list.
pub open spec fn exception_table_view(s: Seq<ExceptionTableEntry>) -> Seq<ExceptionTableEntryView> {
    s.map_values(|e: ExceptionTableEntry| e@)
}

/// A method's prepared bytecode and the tables that come with it.
pub struct ByteCode {
    /// the deepest the operand stack gets
    pub max_stack: u16,
    /// the instructions; branch targets are instruction indices
    pub code: Vec<Instruction>,
    /// the exception handlers; positions are instruction indices
    pub exception_table: Vec<ExceptionTableEntry>,
    pub line_number_table: Vec<LineTableEntry>,
    pub local_type_table: Vec<LocalVarTypeEntry>,
    pub local_var_table: Vec<LocalVarEntry>,
    pub stack_map: Vec<StackMapFrame>,
    /// the attributes of the code that are not read
    pub attributes: Vec<Attribute>,
}

/// The mathematical value of a `ByteCode`.
pub struct ByteCodeView {
    pub max_stack: u16,
    pub code: Seq<InstructionView>,
    pub exception_table: Seq<ExceptionTableEntryView>,
    pub line_number_table: Seq<LineTableEntry>,
    pub local_type_table: Seq<LocalVarTypeEntryView>,
    pub local_var_table: Seq<LocalVarEntryView>,
    pub stack_map: Seq<StackMapFrameView>,
    pub attributes: Seq<AttributeView>,
}

impl View for ByteCode {
    type V = ByteCodeView;

    open spec fn view(&self) -> ByteCodeView {
        ByteCodeView {
            max_stack: self.max_stack,
            code: instructions_view(self.code@),
            exception_table: exception_table_view(self.exception_table@),
            line_number_table: self.line_number_table@,
            local_type_table: local_types_view(self.local_type_table@),
            local_var_table: locals_view(self.local_var_table@),
            stack_map: frames_view(self.stack_map@),
            attributes: attributes_view(self.attributes@),
        }
    }
}

/// The code of a method implementation.
pub enum Code {
    /// JVM bytecode
    Code(ByteCode),
    /// a native method: an index into the host's table of native implementations
    Native(u32),
    /// no code: the method is abstract
    Abstract,
}

/// The mathematical value of a `Code`.
pub enum CodeView {
    Code(ByteCodeView),
    Native(u32),
    Abstract,
}

impl View for Code {
    type V = CodeView;

    open spec fn view(&self) -> CodeView {
        match self {
            Code::Code(b) => CodeView::Code(b@),
            Code::Native(n) => CodeView::Native(*n),
            Code::Abstract => CodeView::Abstract,
        }
    }
}

impl Code {
    /// The bytecode, if this is bytecode.
    pub fn as_bytecode_mut(&mut self) -> (r: Option<&mut ByteCode>)
        ensures
            (*old(self) is Code) == (r is Some),
            r matches Some(b) ==> old(self)->Code_0 == *b && *final(self) == Code::Code(*final(b)),
            r is None ==> *final(self) == *old(self),
    {
        match self {
            Code::Code(bt) => Some(bt),
            _ => None,
        }
    }

    /// The bytecode, if this is bytecode.
    pub fn as_bytecode(&self) -> (r: Option<&ByteCode>)
        ensures
            (*self is Code) == (r is Some),
            r matches Some(b) ==> self->Code_0 == *b,
    {
        match self {
            Code::Code(bt) => Some(bt),
            _ => None,
        }
    }

    /// The native method's index, if this is a native method.
    pub fn as_native(&self) -> (r: Option<u32>)
        ensures
            (*self is Native) == (r is Some),
            r matches Some(n) ==> self->Native_0 == n,
    {
        match self {
            Code::Native(n) => Some(*n),
            _ => None,
        }
    }

    /// Whether the method is abstract.
    pub fn is_abstract(&self) -> (r: bool)
        ensures
            r == (*self is Abstract),
    {
        match self {
            Code::Abstract => true,
            _ => false,
        }
    }

    /// Code implemented by the host's native method number `id`.
    pub fn native(id: u32) -> (r: Code)
        ensures
            r == Code::Native(id),
    {
        Code::Native(id)
    }
}

} // verus!
