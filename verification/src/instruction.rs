//! Bytecode instructions and their decoding from the bytes of a method.
use vstd::prelude::*;

use crate::class::{
    constants_view, Constant, ConstantView, FieldType, FieldTypeView, MethodDescriptor, MethodDescriptorView,
};
use crate::class_loader::{be16, be32, parse_field_type, spec_field_type, LoadError};
use crate::text::copy_chars;

verus! {

/// An arithmetic or bitwise operation.
#[derive(Clone, Copy, PartialEq, Eq, Structural, Debug)]
pub enum Op {
    Add,
    Sub,
    Mul,
    Div,
    Mod,
    Neg,
    Shl,
    Shr,
    Ushr,
    And,
    Or,
    Xor,
}

/// A primitive type that a conversion reads or writes.
#[derive(Clone, Copy, PartialEq, Eq, Structural, Debug)]
pub enum Type {
    Int,
    Long,
    Float,
    Double,
    Byte,
    Char,
    Short,
}

/// The condition of a conditional branch.
#[derive(Clone, Copy, PartialEq, Eq, Structural, Debug)]
pub enum Cmp {
    Eq,
    Ne,
    Lt,
    Le,
    Gt,
    Ge,
}

/// A decoded bytecode instruction. Branch targets are offsets from the
/// instruction as decoded, and instruction indices once a method is
/// prepared (see `hydrate_code`).
#[derive(Debug)]
pub enum Instruction {
    AThrow,
    Noop,
    Push1(u32),
    Push2(u32, u32),
    LoadString(Vec<char>),
    LoadClass(Vec<char>),
    Load1(usize),
    Load2(usize),
    Store1(usize),
    Store2(usize),
    Pop,
    Pop2,
    Dup,
    Dupx1,
    Dupx2,
    Dup2,
    Dup2x1,
    Dup2x2,
    Swap,
    IOp(Op),
    IInc(usize, i32),
    LOp(Op),
    FOp(Op),
    DOp(Op),
    Convert(Type, Type),
    LCmp,
    /// `true` for `dcmpl`, `false` for `dcmpg`
    DCmp(bool),
    /// `true` for `fcmpl`, `false` for `fcmpg`
    FCmp(bool),
    /// compare two integers
    ICmp(Cmp, i16),
    /// compare one integer with zero
    IfCmpZ(Cmp, i16),
    Goto(i32),
    Return0,
    Return1,
    Return2,
    GetStatic(Vec<char>, Vec<char>, FieldType),
    PutStatic(Vec<char>, Vec<char>, FieldType),
    GetField(Option<usize>, Vec<char>, Vec<char>, FieldType),
    PutField(Option<usize>, Vec<char>, Vec<char>, FieldType),
    InvokeVirtual(Vec<char>, Vec<char>, MethodDescriptor),
    InvokeInterface(Vec<char>, Vec<char>, MethodDescriptor),
    InvokeSpecial(Vec<char>, Vec<char>, MethodDescriptor),
    InvokeStatic(Vec<char>, Vec<char>, MethodDescriptor),
    InvokeDynamic(u16, Vec<char>, MethodDescriptor),
    New(Vec<char>),
    NewArray1(FieldType),
    NewArray2(FieldType),
    NewMultiArray(u8, FieldType),
    ArrayLength,
    ArrayStore1,
    ArrayStore2,
    ArrayLoad1,
    ArrayLoad2,
    /// `true`: branch if null; `false`: branch if not null
    IfNull(bool, i16),
    Instanceof(Vec<char>),
    CheckedCast(Vec<char>),
}

/// The mathematical value of an `Instruction`.
pub enum InstructionView {
    AThrow,
    Noop,
    Push1(u32),
    Push2(u32, u32),
    LoadString(Seq<char>),
    LoadClass(Seq<char>),
    Load1(usize),
    Load2(usize),
    Store1(usize),
    Store2(usize),
    Pop,
    Pop2,
    Dup,
    Dupx1,
    Dupx2,
    Dup2,
    Dup2x1,
    Dup2x2,
    Swap,
    IOp(Op),
    IInc(usize, i32),
    LOp(Op),
    FOp(Op),
    DOp(Op),
    Convert(Type, Type),
    LCmp,
    DCmp(bool),
    FCmp(bool),
    ICmp(Cmp, i16),
    IfCmpZ(Cmp, i16),
    Goto(i32),
    Return0,
    Return1,
    Return2,
    GetStatic(Seq<char>, Seq<char>, FieldTypeView),
    PutStatic(Seq<char>, Seq<char>, FieldTypeView),
    GetField(Option<usize>, Seq<char>, Seq<char>, FieldTypeView),
    PutField(Option<usize>, Seq<char>, Seq<char>, FieldTypeView),
    InvokeVirtual(Seq<char>, Seq<char>, MethodDescriptorView),
    InvokeInterface(Seq<char>, Seq<char>, MethodDescriptorView),
    InvokeSpecial(Seq<char>, Seq<char>, MethodDescriptorView),
    InvokeStatic(Seq<char>, Seq<char>, MethodDescriptorView),
    InvokeDynamic(u16, Seq<char>, MethodDescriptorView),
    New(Seq<char>),
    NewArray1(FieldTypeView),
    NewArray2(FieldTypeView),
    NewMultiArray(u8, FieldTypeView),
    ArrayLength,
    ArrayStore1,
    ArrayStore2,
    ArrayLoad1,
    ArrayLoad2,
    IfNull(bool, i16),
    Instanceof(Seq<char>),
    CheckedCast(Seq<char>),
}

impl View for Instruction {
    type V = InstructionView;

    open spec fn view(&self) -> InstructionView {
        match self {
            Instruction::AThrow => InstructionView::AThrow,
            Instruction::Noop => InstructionView::Noop,
            Instruction::Push1(x) => InstructionView::Push1(*x),
            Instruction::Push2(x, y) => InstructionView::Push2(*x, *y),
            Instruction::LoadString(s) => InstructionView::LoadString(s@),
            Instruction::LoadClass(s) => InstructionView::LoadClass(s@),
            Instruction::Load1(i) => InstructionView::Load1(*i),
            Instruction::Load2(i) => InstructionView::Load2(*i),
            Instruction::Store1(i) => InstructionView::Store1(*i),
            Instruction::Store2(i) => InstructionView::Store2(*i),
            Instruction::Pop => InstructionView::Pop,
            Instruction::Pop2 => InstructionView::Pop2,
            Instruction::Dup => InstructionView::Dup,
            Instruction::Dupx1 => InstructionView::Dupx1,
            Instruction::Dupx2 => InstructionView::Dupx2,
            Instruction::Dup2 => InstructionView::Dup2,
            Instruction::Dup2x1 => InstructionView::Dup2x1,
            Instruction::Dup2x2 => InstructionView::Dup2x2,
            Instruction::Swap => InstructionView::Swap,
            Instruction::IOp(o) => InstructionView::IOp(*o),
            Instruction::IInc(i, d) => InstructionView::IInc(*i, *d),
            Instruction::LOp(o) => InstructionView::LOp(*o),
            Instruction::FOp(o) => InstructionView::FOp(*o),
            Instruction::DOp(o) => InstructionView::DOp(*o),
            Instruction::Convert(a, b) => InstructionView::Convert(*a, *b),
            Instruction::LCmp => InstructionView::LCmp,
            Instruction::DCmp(b) => InstructionView::DCmp(*b),
            Instruction::FCmp(b) => InstructionView::FCmp(*b),
            Instruction::ICmp(c, o) => InstructionView::ICmp(*c, *o),
            Instruction::IfCmpZ(c, o) => InstructionView::IfCmpZ(*c, *o),
            Instruction::Goto(o) => InstructionView::Goto(*o),
            Instruction::Return0 => InstructionView::Return0,
            Instruction::Return1 => InstructionView::Return1,
            Instruction::Return2 => InstructionView::Return2,
            Instruction::GetStatic(c, n, t) => InstructionView::GetStatic(c@, n@, t@),
            Instruction::PutStatic(c, n, t) => InstructionView::PutStatic(c@, n@, t@),
            Instruction::GetField(i, c, n, t) => InstructionView::GetField(*i, c@, n@, t@),
            Instruction::PutField(i, c, n, t) => InstructionView::PutField(*i, c@, n@, t@),
            Instruction::InvokeVirtual(c, n, d) => InstructionView::InvokeVirtual(c@, n@, d@),
            Instruction::InvokeInterface(c, n, d) => InstructionView::InvokeInterface(c@, n@, d@),
            Instruction::InvokeSpecial(c, n, d) => InstructionView::InvokeSpecial(c@, n@, d@),
            Instruction::InvokeStatic(c, n, d) => InstructionView::InvokeStatic(c@, n@, d@),
            Instruction::InvokeDynamic(b, n, d) => InstructionView::InvokeDynamic(*b, n@, d@),
            Instruction::New(c) => InstructionView::New(c@),
            Instruction::NewArray1(t) => InstructionView::NewArray1(t@),
            Instruction::NewArray2(t) => InstructionView::NewArray2(t@),
            Instruction::NewMultiArray(d, t) => InstructionView::NewMultiArray(*d, t@),
            Instruction::ArrayLength => InstructionView::ArrayLength,
            Instruction::ArrayStore1 => InstructionView::ArrayStore1,
            Instruction::ArrayStore2 => InstructionView::ArrayStore2,
            Instruction::ArrayLoad1 => InstructionView::ArrayLoad1,
            Instruction::ArrayLoad2 => InstructionView::ArrayLoad2,
            Instruction::IfNull(b, o) => InstructionView::IfNull(*b, *o),
            Instruction::Instanceof(c) => InstructionView::Instanceof(c@),
            Instruction::CheckedCast(c) => InstructionView::CheckedCast(c@),
        }
    }
}

/// The high half of a 64-bit value.
pub open spec fn hi_word(bytes: u64) -> u32 {
    (bytes / 0x1_0000_0000) as u32
}

/// The low half of a 64-bit value.
pub open spec fn lo_word(bytes: u64) -> u32 {
    (bytes % 0x1_0000_0000) as u32
}

impl Instruction {
    /// An instruction that pushes a 64-bit value: its high word, then its low word.
    pub fn push_2(bytes: u64) -> (r: Instruction)
        ensures
            r@ == InstructionView::Push2(hi_word(bytes), lo_word(bytes)),
    {
        Instruction::Push2((bytes / 0x1_0000_0000) as u32, (bytes % 0x1_0000_0000) as u32)
    }
}

/// The instruction that a one-byte opcode with no operands and no constant
/// stands for, if it is one.
pub open spec fn spec_simple(op: u8) -> Option<InstructionView> {
    if op == 0x00 {
        Some(InstructionView::Noop)
    } else if op == 0x01 {
        Some(InstructionView::Push1(0))
    } else if 0x02 <= op <= 0x08 {
        Some(InstructionView::Push1((op as i8 - 3) as i32 as u32))
    } else if op == 0x09 {
        Some(InstructionView::Push2(0, 0))
    } else if op == 0x0A {
        Some(InstructionView::Push2(0, 1))
    } else if op == 0x0B {
        Some(InstructionView::Push1(0))
    } else if op == 0x0C {
        Some(InstructionView::Push1(0x3F80_0000))
    } else if op == 0x0D {
        Some(InstructionView::Push1(0x4000_0000))
    } else if op == 0x0E {
        Some(InstructionView::Push2(0, 0))
    } else if op == 0x0F {
        Some(InstructionView::Push2(0x3FF0_0000, 0))
    } else if 0x1A <= op <= 0x1D {
        Some(InstructionView::Load1((op - 0x1A) as usize))
    } else if 0x1E <= op <= 0x21 {
        Some(InstructionView::Load2((op - 0x1E) as usize))
    } else if 0x22 <= op <= 0x25 {
        Some(InstructionView::Load1((op - 0x22) as usize))
    } else if 0x26 <= op <= 0x29 {
        Some(InstructionView::Load2((op - 0x26) as usize))
    } else if 0x2A <= op <= 0x2D {
        Some(InstructionView::Load1((op - 0x2A) as usize))
    } else if op == 0x2F || op == 0x31 {
        Some(InstructionView::ArrayLoad2)
    } else if op == 0x2E || op == 0x30 || (0x32 <= op <= 0x35) {
        Some(InstructionView::ArrayLoad1)
    } else if 0x3B <= op <= 0x3E {
        Some(InstructionView::Store1((op - 0x3B) as usize))
    } else if 0x3F <= op <= 0x42 {
        Some(InstructionView::Store2((op - 0x3F) as usize))
    } else if 0x43 <= op <= 0x46 {
        Some(InstructionView::Store1((op - 0x43) as usize))
    } else if 0x47 <= op <= 0x4A {
        Some(InstructionView::Store2((op - 0x47) as usize))
    } else if 0x4B <= op <= 0x4E {
        Some(InstructionView::Store1((op - 0x4B) as usize))
    } else if op == 0x50 || op == 0x52 {
        Some(InstructionView::ArrayStore2)
    } else if op == 0x4F || op == 0x51 || (0x53 <= op <= 0x56) {
        Some(InstructionView::ArrayStore1)
    } else if op == 0x57 {
        Some(InstructionView::Pop)
    } else if op == 0x58 {
        Some(InstructionView::Pop2)
    } else if op == 0x59 {
        Some(InstructionView::Dup)
    } else if op == 0x5A {
        Some(InstructionView::Dupx1)
    } else if op == 0x5B {
        Some(InstructionView::Dupx2)
    } else if op == 0x5C {
        Some(InstructionView::Dup2)
    } else if op == 0x5D {
        Some(InstructionView::Dup2x1)
    } else if op == 0x5E {
        Some(InstructionView::Dup2x2)
    } else if op == 0x5F {
        Some(InstructionView::Swap)
    } else if 0x60 <= op <= 0x83 {
        Some(spec_arith(op))
    } else if 0x85 <= op <= 0x93 {
        Some(spec_convert(op))
    } else if op == 0x94 {
        Some(InstructionView::LCmp)
    } else if op == 0x95 || op == 0x96 {
        Some(InstructionView::FCmp(op == 0x95))
    } else if op == 0x97 || op == 0x98 {
        Some(InstructionView::DCmp(op == 0x97))
    } else if op == 0xAC || op == 0xAE || op == 0xB0 {
        Some(InstructionView::Return1)
    } else if op == 0xAD || op == 0xAF {
        Some(InstructionView::Return2)
    } else if op == 0xB1 {
        Some(InstructionView::Return0)
    } else if op == 0xBE {
        Some(InstructionView::ArrayLength)
    } else if op == 0xBF {
        Some(InstructionView::AThrow)
    } else {
        None
    }
}

/// The operation of an arithmetic opcode in `0x60..=0x83`.
pub open spec fn spec_op(op: u8) -> Op {
    if op < 0x64 {
        Op::Add
    } else if op < 0x68 {
        Op::Sub
    } else if op < 0x6C {
        Op::Mul
    } else if op < 0x70 {
        Op::Div
    } else if op < 0x74 {
        Op::Mod
    } else if op < 0x78 {
        Op::Neg
    } else if op < 0x7A {
        Op::Shl
    } else if op < 0x7C {
        Op::Shr
    } else if op < 0x7E {
        Op::Ushr
    } else if op < 0x80 {
        Op::And
    } else if op < 0x82 {
        Op::Or
    } else {
        Op::Xor
    }
}

/// The instruction of an arithmetic opcode in `0x60..=0x83`: the first
/// six operations come in int, long, float and double forms, the bitwise
/// ones in int and long forms.
pub open spec fn spec_arith(op: u8) -> InstructionView {
    let o = spec_op(op);
    if op < 0x78 {
        let k = (op - 0x60) % 4;
        if k == 0 {
            InstructionView::IOp(o)
        } else if k == 1 {
            InstructionView::LOp(o)
        } else if k == 2 {
            InstructionView::FOp(o)
        } else {
            InstructionView::DOp(o)
        }
    } else if (op - 0x78) % 2 == 0 {
        InstructionView::IOp(o)
    } else {
        InstructionView::LOp(o)
    }
}

/// The conversion of an opcode in `0x85..=0x93`.
pub open spec fn spec_convert(op: u8) -> InstructionView {
    if op == 0x85 {
        InstructionView::Convert(Type::Int, Type::Long)
    } else if op == 0x86 {
        InstructionView::Convert(Type::Int, Type::Float)
    } else if op == 0x87 {
        InstructionView::Convert(Type::Int, Type::Double)
    } else if op == 0x88 {
        InstructionView::Convert(Type::Long, Type::Int)
    } else if op == 0x89 {
        InstructionView::Convert(Type::Long, Type::Float)
    } else if op == 0x8A {
        InstructionView::Convert(Type::Long, Type::Double)
    } else if op == 0x8B {
        InstructionView::Convert(Type::Float, Type::Int)
    } else if op == 0x8C {
        InstructionView::Convert(Type::Float, Type::Long)
    } else if op == 0x8D {
        InstructionView::Convert(Type::Float, Type::Double)
    } else if op == 0x8E {
        InstructionView::Convert(Type::Double, Type::Int)
    } else if op == 0x8F {
        InstructionView::Convert(Type::Double, Type::Long)
    } else if op == 0x90 {
        InstructionView::Convert(Type::Double, Type::Float)
    } else if op == 0x91 {
        InstructionView::Convert(Type::Int, Type::Byte)
    } else if op == 0x92 {
        InstructionView::Convert(Type::Int, Type::Char)
    } else {
        InstructionView::Convert(Type::Int, Type::Short)
    }
}

fn arith(op: u8) -> (r: Instruction)
    requires
        0x60 <= op <= 0x83,
    ensures
        r@ == spec_arith(op),
{
    let o = if op < 0x64 {
        Op::Add
    } else if op < 0x68 {
        Op::Sub
    } else if op < 0x6C {
        Op::Mul
    } else if op < 0x70 {
        Op::Div
    } else if op < 0x74 {
        Op::Mod
    } else if op < 0x78 {
        Op::Neg
    } else if op < 0x7A {
        Op::Shl
    } else if op < 0x7C {
        Op::Shr
    } else if op < 0x7E {
        Op::Ushr
    } else if op < 0x80 {
        Op::And
    } else if op < 0x82 {
        Op::Or
    } else {
        Op::Xor
    };
    if op < 0x78 {
        let k = (op - 0x60) % 4;
        if k == 0 {
            Instruction::IOp(o)
        } else if k == 1 {
            Instruction::LOp(o)
        } else if k == 2 {
            Instruction::FOp(o)
        } else {
            Instruction::DOp(o)
        }
    } else if (op - 0x78) % 2 == 0 {
        Instruction::IOp(o)
    } else {
        Instruction::LOp(o)
    }
}

fn convert(op: u8) -> (r: Instruction)
    requires
        0x85 <= op <= 0x93,
    ensures
        r@ == spec_convert(op),
{
    match op {
        0x85 => Instruction::Convert(Type::Int, Type::Long),
        0x86 => Instruction::Convert(Type::Int, Type::Float),
        0x87 => Instruction::Convert(Type::Int, Type::Double),
        0x88 => Instruction::Convert(Type::Long, Type::Int),
        0x89 => Instruction::Convert(Type::Long, Type::Float),
        0x8A => Instruction::Convert(Type::Long, Type::Double),
        0x8B => Instruction::Convert(Type::Float, Type::Int),
        0x8C => Instruction::Convert(Type::Float, Type::Long),
        0x8D => Instruction::Convert(Type::Float, Type::Double),
        0x8E => Instruction::Convert(Type::Double, Type::Int),
        0x8F => Instruction::Convert(Type::Double, Type::Long),
        0x90 => Instruction::Convert(Type::Double, Type::Float),
        0x91 => Instruction::Convert(Type::Int, Type::Byte),
        0x92 => Instruction::Convert(Type::Int, Type::Char),
        _ => Instruction::Convert(Type::Int, Type::Short),
    }
}

/// The instruction of a one-byte opcode with no operands, if it is one.
fn simple_instruction(op: u8) -> (r: Option<Instruction>)
    ensures
        match spec_simple(op) {
            Some(i) => r matches Some(v) && v@ == i,
            None => r is None,
        },
{
    if op == 0x00 {
        Some(Instruction::Noop)
    } else if op == 0x01 {
        Some(Instruction::Push1(0))
    } else if 0x02 <= op && op <= 0x08 {
        Some(Instruction::Push1((op as i8 - 3) as i32 as u32))
    } else if op == 0x09 {
        Some(Instruction::Push2(0, 0))
    } else if op == 0x0A {
        Some(Instruction::Push2(0, 1))
    } else if op == 0x0B {
        Some(Instruction::Push1(0))
    } else if op == 0x0C {
        Some(Instruction::Push1(0x3F80_0000))
    } else if op == 0x0D {
        Some(Instruction::Push1(0x4000_0000))
    } else if op == 0x0E {
        Some(Instruction::Push2(0, 0))
    } else if op == 0x0F {
        Some(Instruction::Push2(0x3FF0_0000, 0))
    } else if 0x1A <= op && op <= 0x1D {
        Some(Instruction::Load1((op - 0x1A) as usize))
    } else if 0x1E <= op && op <= 0x21 {
        Some(Instruction::Load2((op - 0x1E) as usize))
    } else if 0x22 <= op && op <= 0x25 {
        Some(Instruction::Load1((op - 0x22) as usize))
    } else if 0x26 <= op && op <= 0x29 {
        Some(Instruction::Load2((op - 0x26) as usize))
    } else if 0x2A <= op && op <= 0x2D {
        Some(Instruction::Load1((op - 0x2A) as usize))
    } else if op == 0x2F || op == 0x31 {
        Some(Instruction::ArrayLoad2)
    } else if op == 0x2E || op == 0x30 || (0x32 <= op && op <= 0x35) {
        Some(Instruction::ArrayLoad1)
    } else if 0x3B <= op && op <= 0x3E {
        Some(Instruction::Store1((op - 0x3B) as usize))
    } else if 0x3F <= op && op <= 0x42 {
        Some(Instruction::Store2((op - 0x3F) as usize))
    } else if 0x43 <= op && op <= 0x46 {
        Some(Instruction::Store1((op - 0x43) as usize))
    } else if 0x47 <= op && op <= 0x4A {
        Some(Instruction::Store2((op - 0x47) as usize))
    } else if 0x4B <= op && op <= 0x4E {
        Some(Instruction::Store1((op - 0x4B) as usize))
    } else if op == 0x50 || op == 0x52 {
        Some(Instruction::ArrayStore2)
    } else if op == 0x4F || op == 0x51 || (0x53 <= op && op <= 0x56) {
        Some(Instruction::ArrayStore1)
    } else if op == 0x57 {
        Some(Instruction::Pop)
    } else if op == 0x58 {
        Some(Instruction::Pop2)
    } else if op == 0x59 {
        Some(Instruction::Dup)
    } else if op == 0x5A {
        Some(Instruction::Dupx1)
    } else if op == 0x5B {
        Some(Instruction::Dupx2)
    } else if op == 0x5C {
        Some(Instruction::Dup2)
    } else if op == 0x5D {
        Some(Instruction::Dup2x1)
    } else if op == 0x5E {
        Some(Instruction::Dup2x2)
    } else if op == 0x5F {
        Some(Instruction::Swap)
    } else if 0x60 <= op && op <= 0x83 {
        Some(arith(op))
    } else if 0x85 <= op && op <= 0x93 {
        Some(convert(op))
    } else if op == 0x94 {
        Some(Instruction::LCmp)
    } else if op == 0x95 || op == 0x96 {
        Some(Instruction::FCmp(op == 0x95))
    } else if op == 0x97 || op == 0x98 {
        Some(Instruction::DCmp(op == 0x97))
    } else if op == 0xAC || op == 0xAE || op == 0xB0 {
        Some(Instruction::Return1)
    } else if op == 0xAD || op == 0xAF {
        Some(Instruction::Return2)
    } else if op == 0xB1 {
        Some(Instruction::Return0)
    } else if op == 0xBE {
        Some(Instruction::ArrayLength)
    } else if op == 0xBF {
        Some(Instruction::AThrow)
    } else {
        None
    }
}


/// The condition of `if<cond>` (`0x99..=0x9E`) and, six opcodes on, of `if_icmp<cond>`.
pub open spec fn spec_cond(k: int) -> Cmp {
    if k == 0 {
        Cmp::Eq
    } else if k == 1 {
        Cmp::Ne
    } else if k == 2 {
        Cmp::Lt
    } else if k == 3 {
        Cmp::Ge
    } else if k == 4 {
        Cmp::Gt
    } else {
        Cmp::Le
    }
}

fn cond(k: u8) -> (r: Cmp)
    ensures
        r == spec_cond(k as int),
{
    match k {
        0 => Cmp::Eq,
        1 => Cmp::Ne,
        2 => Cmp::Lt,
        3 => Cmp::Ge,
        4 => Cmp::Gt,
        _ => Cmp::Le,
    }
}

/// The entry at the 1-based index `idx` of a pool.
pub open spec fn spec_constant_at(cs: Seq<ConstantView>, idx: int) -> Result<ConstantView, LoadError> {
    if 1 <= idx <= cs.len() {
        Ok(cs[idx - 1])
    } else {
        Err(LoadError::ConstantIndexOutOfRange)
    }
}

/// How many array dimensions a type has.
pub open spec fn array_depth(t: FieldTypeView) -> nat
    decreases t,
{
    match t {
        FieldTypeView::Array(inner) => 1 + array_depth(*inner),
        _ => 0,
    }
}

/// The element type that `newarray` names by `atype`.
pub open spec fn spec_newarray(atype: u8) -> Result<InstructionView, LoadError> {
    if atype == 4 {
        Ok(InstructionView::NewArray1(FieldTypeView::Boolean))
    } else if atype == 5 {
        Ok(InstructionView::NewArray1(FieldTypeView::Char))
    } else if atype == 6 {
        Ok(InstructionView::NewArray1(FieldTypeView::Float))
    } else if atype == 7 {
        Ok(InstructionView::NewArray2(FieldTypeView::Double))
    } else if atype == 8 {
        Ok(InstructionView::NewArray1(FieldTypeView::Byte))
    } else if atype == 9 {
        Ok(InstructionView::NewArray1(FieldTypeView::Short))
    } else if atype == 10 {
        Ok(InstructionView::NewArray1(FieldTypeView::Int))
    } else if atype == 11 {
        Ok(InstructionView::NewArray2(FieldTypeView::Long))
    } else {
        Err(LoadError::BadArrayType(atype))
    }
}

/// The instruction of an opcode that takes the pool entry `c`: `ldc`,
/// `ldc2_w`, the field and invocation instructions, `new`, `anewarray`,
/// `checkcast` and `instanceof`.
pub open spec fn spec_with_constant(op: u8, c: ConstantView) -> Result<InstructionView, LoadError> {
    if op == 0x12 {
        match c {
            ConstantView::Int(i) => Ok(InstructionView::Push1(i as u32)),
            ConstantView::Float(f) => Ok(InstructionView::Push1(f)),
            ConstantView::String(s) => Ok(InstructionView::LoadString(s)),
            ConstantView::StringRef(s) => Ok(InstructionView::LoadString(s)),
            ConstantView::ClassRef(s) => Ok(InstructionView::LoadClass(s)),
            _ => Err(LoadError::LdcUnloadable),
        }
    } else if op == 0x14 {
        match c {
            ConstantView::Double(d) => Ok(InstructionView::Push2(hi_word(d), lo_word(d))),
            ConstantView::Long(l) => Ok(InstructionView::Push2(hi_word(l as u64), lo_word(l as u64))),
            _ => Err(LoadError::Ldc2Unloadable),
        }
    } else if 0xB2 <= op <= 0xB5 {
        match c {
            ConstantView::FieldRef { class, name, field_type } => Ok(
                if op == 0xB2 {
                    InstructionView::GetStatic(class, name, field_type)
                } else if op == 0xB3 {
                    InstructionView::PutStatic(class, name, field_type)
                } else if op == 0xB4 {
                    InstructionView::GetField(None, class, name, field_type)
                } else {
                    InstructionView::PutField(None, class, name, field_type)
                },
            ),
            _ => Err(LoadError::BadFieldRef),
        }
    } else if 0xB6 <= op <= 0xB8 {
        match c {
            ConstantView::MethodRef { class, name, method_type } => Ok(
                if op == 0xB6 {
                    InstructionView::InvokeVirtual(class, name, method_type)
                } else if op == 0xB7 {
                    InstructionView::InvokeSpecial(class, name, method_type)
                } else {
                    InstructionView::InvokeStatic(class, name, method_type)
                },
            ),
            _ => Err(LoadError::BadMethodRef),
        }
    } else if op == 0xB9 {
        match c {
            ConstantView::InterfaceRef { class, name, interface_type } => Ok(
                InstructionView::InvokeInterface(class, name, interface_type),
            ),
            _ => Err(LoadError::BadInterfaceRef),
        }
    } else if op == 0xBA {
        match c {
            ConstantView::InvokeDynamic { bootstrap_index, method_name, method_type } => Ok(
                InstructionView::InvokeDynamic(bootstrap_index, method_name, method_type),
            ),
            _ => Err(LoadError::BadInvokeDynamic),
        }
    } else {
        match c {
            ConstantView::ClassRef(class) => Ok(
                if op == 0xBB {
                    InstructionView::New(class)
                } else if op == 0xBD {
                    InstructionView::NewArray1(FieldTypeView::Object(class))
                } else if op == 0xC0 {
                    InstructionView::CheckedCast(class)
                } else {
                    InstructionView::Instanceof(class)
                },
            ),
            _ => Err(LoadError::ExpectedClassRef),
        }
    }
}

/// Looks up the entry at `idx` and applies `spec_with_constant`.
pub open spec fn spec_lookup(cs: Seq<ConstantView>, op: u8, idx: int, next: int) -> Result<
    (InstructionView, int),
    LoadError,
> {
    match spec_constant_at(cs, idx) {
        Ok(c) => match spec_with_constant(op, c) {
            Ok(i) => Ok((i, next)),
            Err(e) => Err(e),
        },
        Err(e) => Err(e),
    }
}

/// The conditional branches decode to the condition that the JVM gives
/// their opcodes: `ifeq`, `ifne`, `iflt`, `ifge`, `ifgt`, `ifle` (against
/// zero) and `if_icmpeq` to `if_icmple` (against a second value), each
/// taking its two offset bytes.
pub proof fn law_branch_conditions(cs: Seq<ConstantView>, code: Seq<u8>, p: int)
    requires
        0 <= p,
        p + 3 <= code.len(),
    ensures
        code[p] == 0x99 ==> (spec_decode(cs, code, p) matches Ok((InstructionView::IfCmpZ(c, _), q)) && c == Cmp::Eq
            && q == p + 3),
        code[p] == 0x9A ==> (spec_decode(cs, code, p) matches Ok((InstructionView::IfCmpZ(c, _), q)) && c == Cmp::Ne
            && q == p + 3),
        code[p] == 0x9B ==> (spec_decode(cs, code, p) matches Ok((InstructionView::IfCmpZ(c, _), q)) && c == Cmp::Lt
            && q == p + 3),
        code[p] == 0x9C ==> (spec_decode(cs, code, p) matches Ok((InstructionView::IfCmpZ(c, _), q)) && c == Cmp::Ge
            && q == p + 3),
        code[p] == 0x9D ==> (spec_decode(cs, code, p) matches Ok((InstructionView::IfCmpZ(c, _), q)) && c == Cmp::Gt
            && q == p + 3),
        code[p] == 0x9E ==> (spec_decode(cs, code, p) matches Ok((InstructionView::IfCmpZ(c, _), q)) && c == Cmp::Le
            && q == p + 3),
        code[p] == 0x9F ==> (spec_decode(cs, code, p) matches Ok((InstructionView::ICmp(c, _), q)) && c == Cmp::Eq
            && q == p + 3),
        code[p] == 0xA0 ==> (spec_decode(cs, code, p) matches Ok((InstructionView::ICmp(c, _), q)) && c == Cmp::Ne
            && q == p + 3),
        code[p] == 0xA1 ==> (spec_decode(cs, code, p) matches Ok((InstructionView::ICmp(c, _), q)) && c == Cmp::Lt
            && q == p + 3),
        code[p] == 0xA2 ==> (spec_decode(cs, code, p) matches Ok((InstructionView::ICmp(c, _), q)) && c == Cmp::Ge
            && q == p + 3),
        code[p] == 0xA3 ==> (spec_decode(cs, code, p) matches Ok((InstructionView::ICmp(c, _), q)) && c == Cmp::Gt
            && q == p + 3),
        code[p] == 0xA4 ==> (spec_decode(cs, code, p) matches Ok((InstructionView::ICmp(c, _), q)) && c == Cmp::Le
            && q == p + 3),
{
}

/// The instruction at `p` of the method bytes `code`, given the class's
/// constant pool `cs`, and the position after it. Opcodes the machine does not
/// implement (`ldc_w`, `jsr`, `ret`, the switches, the monitors, `wide`,
/// `jsr_w`) and bytes that are no opcode are refused; so is an instruction
/// cut short by the end of the method.
pub open spec fn spec_decode(cs: Seq<ConstantView>, code: Seq<u8>, p: int) -> Result<
    (InstructionView, int),
    LoadError,
> {
    if p < 0 || p >= code.len() {
        Err(LoadError::UnexpectedEof)
    } else {
        let op = code[p];
        let q = p + 1;
        let left = code.len() - q;
        match spec_simple(op) {
            Some(i) => Ok((i, q)),
            None => if op == 0x13 || (0xA8 <= op <= 0xAB) || (0xC2 <= op <= 0xC4) || op == 0xC9 {
                Err(LoadError::UnsupportedOpcode(op))
            } else if op == 0x10 || op == 0x12 || op == 0x15 || op == 0x16 || op == 0x17 || op
                == 0x18 || op == 0x19 || op == 0x36 || op == 0x37 || op == 0x38 || op == 0x39 || op
                == 0x3A || op == 0xBC {
                if left < 1 {
                    Err(LoadError::UnexpectedEof)
                } else {
                    let b = code[q];
                    if op == 0x10 {
                        Ok((InstructionView::Push1(b as i8 as i32 as u32), q + 1))
                    } else if op == 0x12 {
                        spec_lookup(cs, op, b as int, q + 1)
                    } else if op == 0x16 || op == 0x18 {
                        Ok((InstructionView::Load2(b as usize), q + 1))
                    } else if op == 0x15 || op == 0x17 || op == 0x19 {
                        Ok((InstructionView::Load1(b as usize), q + 1))
                    } else if op == 0x37 || op == 0x39 {
                        Ok((InstructionView::Store2(b as usize), q + 1))
                    } else if op == 0x36 || op == 0x38 || op == 0x3A {
                        Ok((InstructionView::Store1(b as usize), q + 1))
                    } else {
                        match spec_newarray(b) {
                            Ok(i) => Ok((i, q + 1)),
                            Err(e) => Err(e),
                        }
                    }
                }
            } else if op == 0x11 || op == 0x14 || op == 0x84 || (0x99 <= op <= 0xA7) || (0xB2
                <= op <= 0xB8) || op == 0xBB || op == 0xBD || op == 0xC0 || op == 0xC1 || op
                == 0xC6 || op == 0xC7 {
                if left < 2 {
                    Err(LoadError::UnexpectedEof)
                } else {
                    let w = be16(code, q);
                    let br = w as u16 as i16;
                    if op == 0x11 {
                        Ok((InstructionView::Push1(br as i32 as u32), q + 2))
                    } else if op == 0x84 {
                        Ok((InstructionView::IInc(code[q] as usize, code[q + 1] as i8 as i32), q + 2))
                    } else if 0x99 <= op <= 0x9E {
                        Ok((InstructionView::IfCmpZ(spec_cond(op - 0x99), br), q + 2))
                    } else if 0x9F <= op <= 0xA4 {
                        Ok((InstructionView::ICmp(spec_cond(op - 0x9F), br), q + 2))
                    } else if op == 0xA5 {
                        Ok((InstructionView::ICmp(Cmp::Eq, br), q + 2))
                    } else if op == 0xA6 {
                        Ok((InstructionView::ICmp(Cmp::Ne, br), q + 2))
                    } else if op == 0xA7 {
                        Ok((InstructionView::Goto(br as i32), q + 2))
                    } else if op == 0xC6 || op == 0xC7 {
                        Ok((InstructionView::IfNull(op == 0xC6, br), q + 2))
                    } else {
                        spec_lookup(cs, op, w, q + 2)
                    }
                }
            } else if op == 0xB9 {
                if left < 4 {
                    Err(LoadError::UnexpectedEof)
                } else if code[q + 3] != 0 {
                    Err(LoadError::ExpectedZero)
                } else {
                    spec_lookup(cs, op, be16(code, q), q + 4)
                }
            } else if op == 0xBA {
                if left < 3 {
                    Err(LoadError::UnexpectedEof)
                } else if code[q + 2] != 0 {
                    Err(LoadError::ExpectedZero)
                } else if left < 4 {
                    Err(LoadError::UnexpectedEof)
                } else if code[q + 3] != 0 {
                    Err(LoadError::ExpectedZero)
                } else {
                    spec_lookup(cs, op, be16(code, q), q + 4)
                }
            } else if op == 0xC5 {
                if left < 3 {
                    Err(LoadError::UnexpectedEof)
                } else {
                    let idx = be16(code, q);
                    let dims = code[q + 2];
                    if 1 <= idx <= cs.len() && cs[idx - 1] is ClassRef {
                        match spec_field_type(cs[idx - 1]->ClassRef_0, 0) {
                            Ok((t, _)) => if array_depth(t) >= dims {
                                Ok((InstructionView::NewMultiArray(dims, t), q + 3))
                            } else {
                                Err(LoadError::ArrayTooShallow)
                            },
                            Err(e) => Err(e),
                        }
                    } else {
                        Err(LoadError::BadMultiArrayConstant)
                    }
                }
            } else if op == 0xC8 {
                if left < 4 {
                    Err(LoadError::UnexpectedEof)
                } else {
                    Ok((InstructionView::Goto(be32(code, q) as u32 as i32), q + 4))
                }
            } else {
                Err(LoadError::InvalidOpcode(op))
            },
        }
    }
}

fn operand_u16(code: &[u8], q: usize) -> (r: u16)
    requires
        q + 2 <= code@.len(),
    ensures
        r == be16(code@, q as int),
{
    (code[q] as u16) * 0x100 + code[q + 1] as u16
}

fn newarray(atype: u8) -> (r: Result<Instruction, LoadError>)
    ensures
        match spec_newarray(atype) {
            Ok(i) => r matches Ok(v) && v@ == i,
            Err(e) => r matches Err(e2) && e2 == e,
        },
{
    match atype {
        4 => Ok(Instruction::NewArray1(FieldType::Boolean)),
        5 => Ok(Instruction::NewArray1(FieldType::Char)),
        6 => Ok(Instruction::NewArray1(FieldType::Float)),
        7 => Ok(Instruction::NewArray2(FieldType::Double)),
        8 => Ok(Instruction::NewArray1(FieldType::Byte)),
        9 => Ok(Instruction::NewArray1(FieldType::Short)),
        10 => Ok(Instruction::NewArray1(FieldType::Int)),
        11 => Ok(Instruction::NewArray2(FieldType::Long)),
        _ => Err(LoadError::BadArrayType(atype)),
    }
}

/// The instruction that opcode `op` gives with the pool entry `c`.
fn with_constant(op: u8, c: &Constant) -> (r: Result<Instruction, LoadError>)
    ensures
        match spec_with_constant(op, c@) {
            Ok(i) => r matches Ok(v) && v@ == i,
            Err(e) => r matches Err(e2) && e2 == e,
        },
{
    if op == 0x12 {
        match c {
            Constant::Int(i) => Ok(Instruction::Push1(*i as u32)),
            Constant::Float(f) => Ok(Instruction::Push1(*f)),
            Constant::String(s) => Ok(Instruction::LoadString(copy_chars(s))),
            Constant::StringRef(s) => Ok(Instruction::LoadString(copy_chars(s))),
            Constant::ClassRef(s) => Ok(Instruction::LoadClass(copy_chars(s))),
            _ => Err(LoadError::LdcUnloadable),
        }
    } else if op == 0x14 {
        match c {
            Constant::Double(d) => Ok(Instruction::push_2(*d)),
            Constant::Long(l) => Ok(Instruction::push_2(*l as u64)),
            _ => Err(LoadError::Ldc2Unloadable),
        }
    } else if 0xB2 <= op && op <= 0xB5 {
        match c {
            Constant::FieldRef { class, name, field_type } => {
                let class = copy_chars(class);
                let name = copy_chars(name);
                let field_type = field_type.copy();
                Ok(
                    if op == 0xB2 {
                        Instruction::GetStatic(class, name, field_type)
                    } else if op == 0xB3 {
                        Instruction::PutStatic(class, name, field_type)
                    } else if op == 0xB4 {
                        Instruction::GetField(None, class, name, field_type)
                    } else {
                        Instruction::PutField(None, class, name, field_type)
                    },
                )
            },
            _ => Err(LoadError::BadFieldRef),
        }
    } else if 0xB6 <= op && op <= 0xB8 {
        match c {
            Constant::MethodRef { class, name, method_type } => {
                let class = copy_chars(class);
                let name = copy_chars(name);
                let method_type = method_type.copy();
                Ok(
                    if op == 0xB6 {
                        Instruction::InvokeVirtual(class, name, method_type)
                    } else if op == 0xB7 {
                        Instruction::InvokeSpecial(class, name, method_type)
                    } else {
                        Instruction::InvokeStatic(class, name, method_type)
                    },
                )
            },
            _ => Err(LoadError::BadMethodRef),
        }
    } else if op == 0xB9 {
        match c {
            Constant::InterfaceRef { class, name, interface_type } => Ok(
                Instruction::InvokeInterface(
                    copy_chars(class),
                    copy_chars(name),
                    interface_type.copy(),
                ),
            ),
            _ => Err(LoadError::BadInterfaceRef),
        }
    } else if op == 0xBA {
        match c {
            Constant::InvokeDynamic { bootstrap_index, method_name, method_type } => Ok(
                Instruction::InvokeDynamic(
                    *bootstrap_index,
                    copy_chars(method_name),
                    method_type.copy(),
                ),
            ),
            _ => Err(LoadError::BadInvokeDynamic),
        }
    } else {
        match c {
            Constant::ClassRef(class) => {
                let class = copy_chars(class);
                Ok(
                    if op == 0xBB {
                        Instruction::New(class)
                    } else if op == 0xBD {
                        Instruction::NewArray1(FieldType::Object(class))
                    } else if op == 0xC0 {
                        Instruction::CheckedCast(class)
                    } else {
                        Instruction::Instanceof(class)
                    },
                )
            },
            _ => Err(LoadError::ExpectedClassRef),
        }
    }
}

fn lookup(constants: &[Constant], op: u8, idx: usize) -> (r: Result<Instruction, LoadError>)
    ensures
        match spec_lookup(constants_view(constants@), op, idx as int, 0) {
            Ok((i, _)) => r matches Ok(v) && v@ == i,
            Err(e) => r matches Err(e2) && e2 == e,
        },
{
    if idx == 0 || idx > constants.len() {
        return Err(LoadError::ConstantIndexOutOfRange);
    }
    with_constant(op, &constants[idx - 1])
}

/// Whether `t` has at least `dims` array dimensions.
fn has_depth(t: &FieldType, dims: u8) -> (r: bool)
    ensures
        r == (array_depth(t@) >= dims),
    decreases dims,
{
    if dims == 0 {
        return true;
    }
    match t {
        FieldType::Array(inner) => has_depth(&**inner, dims - 1),
        _ => false,
    }
}

/// Decodes the instruction at `*pos` of the method bytes `code`, given the
/// class's constant pool, and moves past it.
pub fn parse_instruction(constants: &[Constant], code: &[u8], pos: &mut usize) -> (r: Result<
    Instruction,
    LoadError,
>)
    ensures
        match spec_decode(constants_view(constants@), code@, *old(pos) as int) {
            Ok((i, q)) => r matches Ok(v) && v@ == i && *final(pos) == q,
            Err(e) => r matches Err(e2) && e2 == e && *final(pos) == *old(pos),
        },
{
    let p = *pos;
    if p >= code.len() {
        return Err(LoadError::UnexpectedEof);
    }
    let op = code[p];
    let q = p + 1;
    let left = code.len() - q;
    if let Some(i) = simple_instruction(op) {
        *pos = q;
        return Ok(i);
    }
    if op == 0x13 || (0xA8 <= op && op <= 0xAB) || (0xC2 <= op && op <= 0xC4) || op == 0xC9 {
        return Err(LoadError::UnsupportedOpcode(op));
    }
    if op == 0x10 || op == 0x12 || op == 0x15 || op == 0x16 || op == 0x17 || op == 0x18 || op
        == 0x19 || op == 0x36 || op == 0x37 || op == 0x38 || op == 0x39 || op == 0x3A || op
        == 0xBC {
        if left < 1 {
            return Err(LoadError::UnexpectedEof);
        }
        let b = code[q];
        let i = if op == 0x10 {
            Instruction::Push1(b as i8 as i32 as u32)
        } else if op == 0x12 {
            lookup(constants, op, b as usize)?
        } else if op == 0x16 || op == 0x18 {
            Instruction::Load2(b as usize)
        } else if op == 0x15 || op == 0x17 || op == 0x19 {
            Instruction::Load1(b as usize)
        } else if op == 0x37 || op == 0x39 {
            Instruction::Store2(b as usize)
        } else if op == 0x36 || op == 0x38 || op == 0x3A {
            Instruction::Store1(b as usize)
        } else {
            newarray(b)?
        };
        *pos = q + 1;
        return Ok(i);
    }
    if op == 0x11 || op == 0x14 || op == 0x84 || (0x99 <= op && op <= 0xA7) || (0xB2 <= op && op
        <= 0xB8) || op == 0xBB || op == 0xBD || op == 0xC0 || op == 0xC1 || op == 0xC6 || op
        == 0xC7 {
        if left < 2 {
            return Err(LoadError::UnexpectedEof);
        }
        let w = operand_u16(code, q);
        let br = w as i16;
        let i = if op == 0x11 {
            Instruction::Push1(br as i32 as u32)
        } else if op == 0x84 {
            Instruction::IInc(code[q] as usize, code[q + 1] as i8 as i32)
        } else if 0x99 <= op && op <= 0x9E {
            Instruction::IfCmpZ(cond(op - 0x99), br)
        } else if 0x9F <= op && op <= 0xA4 {
            Instruction::ICmp(cond(op - 0x9F), br)
        } else if op == 0xA5 {
            Instruction::ICmp(Cmp::Eq, br)
        } else if op == 0xA6 {
            Instruction::ICmp(Cmp::Ne, br)
        } else if op == 0xA7 {
            Instruction::Goto(br as i32)
        } else if op == 0xC6 || op == 0xC7 {
            Instruction::IfNull(op == 0xC6, br)
        } else {
            lookup(constants, op, w as usize)?
        };
        *pos = q + 2;
        return Ok(i);
    }
    if op == 0xB9 {
        if left < 4 {
            return Err(LoadError::UnexpectedEof);
        }
        if code[q + 3] != 0 {
            return Err(LoadError::ExpectedZero);
        }
        let i = lookup(constants, op, operand_u16(code, q) as usize)?;
        *pos = q + 4;
        return Ok(i);
    }
    if op == 0xBA {
        if left < 3 {
            return Err(LoadError::UnexpectedEof);
        }
        if code[q + 2] != 0 {
            return Err(LoadError::ExpectedZero);
        }
        if left < 4 {
            return Err(LoadError::UnexpectedEof);
        }
        if code[q + 3] != 0 {
            return Err(LoadError::ExpectedZero);
        }
        let i = lookup(constants, op, operand_u16(code, q) as usize)?;
        *pos = q + 4;
        return Ok(i);
    }
    if op == 0xC5 {
        if left < 3 {
            return Err(LoadError::UnexpectedEof);
        }
        let idx = operand_u16(code, q) as usize;
        let dims = code[q + 2];
        if idx == 0 || idx > constants.len() {
            return Err(LoadError::BadMultiArrayConstant);
        }
        let class_ref = match &constants[idx - 1] {
            Constant::ClassRef(c) => c,
            _ => {
                return Err(LoadError::BadMultiArrayConstant);
            },
        };
        let mut tpos: usize = 0;
        let full_type = parse_field_type(class_ref.as_slice(), &mut tpos)?;
        if !has_depth(&full_type, dims) {
            return Err(LoadError::ArrayTooShallow);
        }
        *pos = q + 3;
        return Ok(Instruction::NewMultiArray(dims, full_type));
    }
    if op == 0xC8 {
        if left < 4 {
            return Err(LoadError::UnexpectedEof);
        }
        let hi = operand_u16(code, q) as u32;
        let lo = operand_u16(code, q + 2) as u32;
        *pos = q + 4;
        return Ok(Instruction::Goto((hi * 0x1_0000 + lo) as i32));
    }
    Err(LoadError::InvalidOpcode(op))
}

} // verus!
