//! A method's activation: its local variables and operand stack, and the
//! instructions that work on them alone.
use vstd::prelude::*;

use std::sync::Arc;

use crate::class::{Class, ClassView, Method, MethodView};
use crate::error::Fault;
use crate::instruction::{hi_word, lo_word, Cmp, Instruction, InstructionView, Op, Type};
use crate::stacking::join_words;

verus! {

/// The local variables and operand stack of a method being run.
pub struct StackFrame {
    pub locals: Vec<u32>,
    pub operand_stack: Vec<u32>,
    pub method: Arc<Method>,
    pub class: Arc<Class>,
}

/// The mathematical value of a `StackFrame`.
pub struct StackFrameView {
    pub locals: Seq<u32>,
    pub stack: Seq<u32>,
    pub method: MethodView,
    pub class: ClassView,
}

impl View for StackFrame {
    type V = StackFrameView;

    open spec fn view(&self) -> StackFrameView {
        StackFrameView {
            locals: self.locals@,
            stack: self.operand_stack@,
            method: self.method@,
            class: self.class@,
        }
    }
}

impl StackFrame {
    /// A frame for running `method` of `class`: one more zero local than the
    /// method asks for, and an empty operand stack.
    pub fn from_method(method: Arc<Method>, class: Arc<Class>) -> (r: StackFrame)
        ensures
            r@.locals == Seq::new(method@.max_locals as nat + 1, |i: int| 0u32),
            r@.stack.len() == 0,
            r@.method == method@,
            r@.class == class@,
    {
        let n = method.max_locals;
        let mut locals: Vec<u32> = Vec::new();
        let mut i: u32 = 0;
        while i <= n as u32
            invariant
                i <= n as u32 + 1,
                locals@ =~= Seq::new(i as nat, |j: int| 0u32),
            decreases n as u32 + 1 - i,
        {
            locals.push(0);
            i = i + 1;
        }
        StackFrame { locals, operand_stack: Vec::new(), class, method }
    }
}

/// The 64-bit signed value of a high and a low word.
pub open spec fn long_of(hi: u32, lo: u32) -> i64 {
    join_words(hi, lo) as i64
}

/// The words of a 64-bit signed value: high, then low.
pub open spec fn long_words(v: i64) -> Seq<u32> {
    seq![hi_word(v as u64), lo_word(v as u64)]
}

/// The result of an integer operation on the words `l` (below) and `r`
/// (on top), for every operation but `Neg`: a value, or `None` for a
/// division or remainder by zero (an `ArithmeticException`). Only
/// `MIN / -1` overflows; it wraps to `MIN`, and its remainder is 0.
pub open spec fn spec_int_op(op: Op, l: u32, r: u32) -> Result<Option<u32>, Fault> {
    let a = l as i32;
    let b = r as i32;
    match op {
        Op::Add => Ok(Some(a.wrapping_add(b) as u32)),
        Op::Sub => Ok(Some(a.wrapping_sub(b) as u32)),
        Op::Mul => Ok(Some(a.wrapping_mul(b) as u32)),
        Op::Div => if b == 0 {
            Ok(None)
        } else {
            match a.checked_div(b) {
                Some(q) => Ok(Some(q as u32)),
                None => Ok(Some(l)),
            }
        },
        Op::Mod => if b == 0 {
            Ok(None)
        } else {
            match a.checked_rem(b) {
                Some(q) => Ok(Some(q as u32)),
                None => Ok(Some(0)),
            }
        },
        Op::Shl => Ok(Some(a.wrapping_shl(r & 0x1F) as u32)),
        Op::Shr => Ok(Some(a.wrapping_shr(r & 0x1F) as u32)),
        Op::Ushr => Ok(Some(l.wrapping_shr(r & 0x1F))),
        Op::And => Ok(Some(l & r)),
        Op::Or => Ok(Some(l | r)),
        Op::Xor => Ok(Some(l ^ r)),
        Op::Neg => Err(Fault::Unsupported),
    }
}

/// What a 64-bit operation on `l` and `r` gives: a value, an arithmetic
/// exception (a division or remainder by zero), or a fault; for every
/// operation but `Neg` and the shifts. Only `MIN / -1` overflows; it wraps
/// to `MIN`, and its remainder is 0.
pub open spec fn spec_long_op(op: Op, l: i64, r: i64) -> Result<Option<i64>, Fault> {
    match op {
        Op::Add => Ok(Some(l.wrapping_add(r))),
        Op::Sub => Ok(Some(l.wrapping_sub(r))),
        Op::Mul => Ok(Some(l.wrapping_mul(r))),
        Op::Div => if r == 0 {
            Ok(None)
        } else {
            match l.checked_div(r) {
                Some(q) => Ok(Some(q)),
                None => Ok(Some(l)),
            }
        },
        Op::Mod => if r == 0 {
            Ok(None)
        } else {
            match l.checked_rem(r) {
                Some(q) => Ok(Some(q)),
                None => Ok(Some(0)),
            }
        },
        Op::And => Ok(Some(((l as u64) & (r as u64)) as i64)),
        Op::Or => Ok(Some(((l as u64) | (r as u64)) as i64)),
        Op::Xor => Ok(Some(((l as u64) ^ (r as u64)) as i64)),
        _ => Err(Fault::Unsupported),
    }
}

/// A 64-bit shift of `l` by the low six bits of the word `s`.
pub open spec fn spec_long_shift(op: Op, l: i64, s: u32) -> i64 {
    match op {
        Op::Shl => l.wrapping_shl(s & 0x3F),
        Op::Shr => l.wrapping_shr(s & 0x3F),
        _ => (l as u64).wrapping_shr(s & 0x3F) as i64,
    }
}

/// Whether an integer comparison holds.
pub open spec fn spec_cond(cmp: Cmp, l: i32, r: i32) -> bool {
    match cmp {
        Cmp::Eq => l == r,
        Cmp::Ne => l != r,
        Cmp::Lt => l < r,
        Cmp::Ge => l >= r,
        Cmp::Gt => l > r,
        Cmp::Le => l <= r,
    }
}

/// What one instruction does to a frame's locals `ls`, operand stack `st`
/// and the program counter `pc` (already moved past the instruction).
pub enum LocalEffect {
    /// the new locals, stack and program counter
    Next(Seq<u32>, Seq<u32>, usize),
    /// the operands are taken (leaving this stack) and an
    /// `ArithmeticException` is to be thrown
    Throw(Seq<u32>),
    /// the instruction needs more than the frame: the heap, the classes,
    /// other frames, or floating point
    Host,
    /// the instruction cannot run on this frame
    Fail(Fault),
}

/// The top `n` words of `st` taken off.
pub open spec fn drop_n(st: Seq<u32>, n: int) -> Seq<u32> {
    st.subrange(0, st.len() - n)
}

/// The word `k` places below the top (0: the top).
pub open spec fn word(st: Seq<u32>, k: int) -> u32 {
    st[st.len() - 1 - k]
}

/// The effect of an arithmetic, logic or shift instruction on 32-bit values.
pub open spec fn spec_iop(ls: Seq<u32>, st: Seq<u32>, pc: usize, op: Op) -> LocalEffect {
    if op == Op::Neg {
        if st.len() < 1 {
            LocalEffect::Fail(Fault::StackUnderflow)
        } else {
            LocalEffect::Next(ls, drop_n(st, 1).push((0i32).wrapping_sub(word(st, 0) as i32) as u32), pc)
        }
    } else if st.len() < 2 {
        LocalEffect::Fail(Fault::StackUnderflow)
    } else {
        match spec_int_op(op, word(st, 1), word(st, 0)) {
            Ok(Some(v)) => LocalEffect::Next(ls, drop_n(st, 2).push(v), pc),
            Ok(None) => LocalEffect::Throw(drop_n(st, 2)),
            Err(f) => LocalEffect::Fail(f),
        }
    }
}

/// The effect of an arithmetic, logic or shift instruction on 64-bit values.
pub open spec fn spec_lop(ls: Seq<u32>, st: Seq<u32>, pc: usize, op: Op) -> LocalEffect {
    if op == Op::Neg {
        if st.len() < 2 {
            LocalEffect::Fail(Fault::StackUnderflow)
        } else {
            LocalEffect::Next(ls, drop_n(st, 2) + long_words((0i64).wrapping_sub(long_of(word(st, 1), word(st, 0)))), pc)
        }
    } else if op == Op::Shl || op == Op::Shr || op == Op::Ushr {
        if st.len() < 3 {
            LocalEffect::Fail(Fault::StackUnderflow)
        } else {
            let v = spec_long_shift(op, long_of(word(st, 2), word(st, 1)), word(st, 0));
            LocalEffect::Next(ls, drop_n(st, 3) + long_words(v), pc)
        }
    } else if st.len() < 4 {
        LocalEffect::Fail(Fault::StackUnderflow)
    } else {
        match spec_long_op(op, long_of(word(st, 3), word(st, 2)), long_of(word(st, 1), word(st, 0))) {
            Ok(Some(v)) => LocalEffect::Next(ls, drop_n(st, 4) + long_words(v), pc),
            Ok(None) => LocalEffect::Throw(drop_n(st, 4)),
            Err(f) => LocalEffect::Fail(f),
        }
    }
}

/// An integer operation on two words (see `spec_int_op`).
pub fn int_op(op: Op, l: u32, r: u32) -> (res: Result<Option<u32>, Fault>)
    ensures
        res == spec_int_op(op, l, r),
{
    #[verifier::truncate]
    let a = l as i32;
    #[verifier::truncate]
    let b = r as i32;
    match op {
        Op::Add => Ok(Some(a.wrapping_add(b) as u32)),
        Op::Sub => Ok(Some(a.wrapping_sub(b) as u32)),
        Op::Mul => Ok(Some(a.wrapping_mul(b) as u32)),
        Op::Div => if b == 0 {
            Ok(None)
        } else {
            match a.checked_div(b) {
                Some(q) => Ok(Some(q as u32)),
                None => Ok(Some(l)),
            }
        },
        Op::Mod => if b == 0 {
            Ok(None)
        } else {
            match a.checked_rem(b) {
                Some(q) => Ok(Some(q as u32)),
                None => Ok(Some(0)),
            }
        },
        Op::Shl => Ok(Some(a.wrapping_shl(r & 0x1F) as u32)),
        Op::Shr => Ok(Some(a.wrapping_shr(r & 0x1F) as u32)),
        Op::Ushr => Ok(Some(l.wrapping_shr(r & 0x1F))),
        Op::And => Ok(Some(l & r)),
        Op::Or => Ok(Some(l | r)),
        Op::Xor => Ok(Some(l ^ r)),
        Op::Neg => Err(Fault::Unsupported),
    }
}

/// A 64-bit operation (see `spec_long_op`).
pub fn long_op(op: Op, l: i64, r: i64) -> (res: Result<Option<i64>, Fault>)
    ensures
        res == spec_long_op(op, l, r),
{
    match op {
        Op::Add => Ok(Some(l.wrapping_add(r))),
        Op::Sub => Ok(Some(l.wrapping_sub(r))),
        Op::Mul => Ok(Some(l.wrapping_mul(r))),
        Op::Div => if r == 0 {
            Ok(None)
        } else {
            match l.checked_div(r) {
                Some(q) => Ok(Some(q)),
                None => Ok(Some(l)),
            }
        },
        Op::Mod => if r == 0 {
            Ok(None)
        } else {
            match l.checked_rem(r) {
                Some(q) => Ok(Some(q)),
                None => Ok(Some(0)),
            }
        },
        Op::And => Ok(Some(((l as u64) & (r as u64)) as i64)),
        Op::Or => Ok(Some(((l as u64) | (r as u64)) as i64)),
        Op::Xor => Ok(Some(((l as u64) ^ (r as u64)) as i64)),
        _ => Err(Fault::Unsupported),
    }
}

/// A 64-bit shift (see `spec_long_shift`).
pub fn long_shift(op: Op, l: i64, s: u32) -> (res: i64)
    ensures
        res == spec_long_shift(op, l, s),
{
    match op {
        Op::Shl => l.wrapping_shl(s & 0x3F),
        Op::Shr => l.wrapping_shr(s & 0x3F),
        _ => (l as u64).wrapping_shr(s & 0x3F) as i64,
    }
}

/// Takes the top `n` words off a stack.
fn drop_words(st: &mut Vec<u32>, n: usize)
    requires
        n <= old(st)@.len(),
    ensures
        final(st)@ == drop_n(old(st)@, n as int),
{
    let mut k: usize = 0;
    while k < n
        invariant
            k <= n,
            n <= old(st)@.len(),
            st@ == drop_n(old(st)@, k as int),
        decreases n - k,
    {
        st.pop();
        k = k + 1;
        assert(st@ =~= drop_n(old(st)@, k as int));
    }
}

/// The word `k` places below the top of a stack.
fn peek(st: &Vec<u32>, k: usize) -> (r: u32)
    requires
        k < st@.len(),
    ensures
        r == word(st@, k as int),
{
    st[st.len() - 1 - k]
}

/// Pushes the words of a 64-bit value: high, then low.
fn push_long(st: &mut Vec<u32>, v: i64)
    ensures
        final(st)@ == old(st)@ + long_words(v),
{
    let u = v as u64;
    st.push((u / 0x1_0000_0000) as u32);
    st.push((u % 0x1_0000_0000) as u32);
    assert(st@ =~= old(st)@ + long_words(v));
}

/// The 64-bit value of two words (see `long_of`).
fn long_from(hi: u32, lo: u32) -> (r: i64)
    ensures
        r == long_of(hi, lo),
{
    (hi as u64 * 0x1_0000_0000 + lo as u64) as i64
}

/// Runs an `i<op>` instruction (see `spec_iop`); on a fault the frame is
/// left as it was. `Ok(false)`: an `ArithmeticException` is to be thrown.
fn run_iop(frame: &mut StackFrame, op: Op) -> (r: Result<bool, Fault>)
    ensures
        match spec_iop(old(frame)@.locals, old(frame)@.stack, 0, op) {
            LocalEffect::Next(_, st, _) => r == Ok::<bool, Fault>(true) && final(frame)@ == (StackFrameView { stack: st, ..old(frame)@ }),
            LocalEffect::Throw(st) => r == Ok::<bool, Fault>(false) && final(frame)@ == (StackFrameView { stack: st, ..old(frame)@ }),
            LocalEffect::Fail(f) => r == Err::<bool, Fault>(f) && final(frame)@ == old(frame)@,
            _ => false,
        },
{
    let n = frame.operand_stack.len();
    if op == Op::Neg {
        if n < 1 {
            return Err(Fault::StackUnderflow);
        }
        #[verifier::truncate]
        let a = peek(&frame.operand_stack, 0) as i32;
        let v = (0i32).wrapping_sub(a);
        drop_words(&mut frame.operand_stack, 1);
        frame.operand_stack.push(v as u32);
        Ok(true)
    } else {
        if n < 2 {
            return Err(Fault::StackUnderflow);
        }
        let r = peek(&frame.operand_stack, 0);
        let l = peek(&frame.operand_stack, 1);
        match int_op(op, l, r)? {
            Some(v) => {
                drop_words(&mut frame.operand_stack, 2);
                frame.operand_stack.push(v);
                Ok(true)
            },
            None => {
                drop_words(&mut frame.operand_stack, 2);
                Ok(false)
            },
        }
    }
}

/// Runs an `l<op>` instruction (see `spec_lop`); on a fault the frame is
/// left as it was. `Ok(false)`: an `ArithmeticException` is to be thrown.
fn run_lop(frame: &mut StackFrame, op: Op) -> (r: Result<bool, Fault>)
    ensures
        match spec_lop(old(frame)@.locals, old(frame)@.stack, 0, op) {
            LocalEffect::Next(_, st, _) => r == Ok::<bool, Fault>(true) && final(frame)@ == (StackFrameView { stack: st, ..old(frame)@ }),
            LocalEffect::Throw(st) => r == Ok::<bool, Fault>(false) && final(frame)@ == (StackFrameView { stack: st, ..old(frame)@ }),
            LocalEffect::Fail(f) => r == Err::<bool, Fault>(f) && final(frame)@ == old(frame)@,
            _ => false,
        },
{
    let n = frame.operand_stack.len();
    if op == Op::Neg {
        if n < 2 {
            return Err(Fault::StackUnderflow);
        }
        let a = long_from(peek(&frame.operand_stack, 1), peek(&frame.operand_stack, 0));
        let v = (0i64).wrapping_sub(a);
        drop_words(&mut frame.operand_stack, 2);
        push_long(&mut frame.operand_stack, v);
        Ok(true)
    } else if op == Op::Shl || op == Op::Shr || op == Op::Ushr {
        if n < 3 {
            return Err(Fault::StackUnderflow);
        }
        let sh = peek(&frame.operand_stack, 0);
        let a = long_from(peek(&frame.operand_stack, 2), peek(&frame.operand_stack, 1));
        let v = long_shift(op, a, sh);
        drop_words(&mut frame.operand_stack, 3);
        push_long(&mut frame.operand_stack, v);
        Ok(true)
    } else {
        if n < 4 {
            return Err(Fault::StackUnderflow);
        }
        let b = long_from(peek(&frame.operand_stack, 1), peek(&frame.operand_stack, 0));
        let a = long_from(peek(&frame.operand_stack, 3), peek(&frame.operand_stack, 2));
        match long_op(op, a, b)? {
            Some(v) => {
                drop_words(&mut frame.operand_stack, 4);
                push_long(&mut frame.operand_stack, v);
                Ok(true)
            },
            None => {
                drop_words(&mut frame.operand_stack, 4);
                Ok(false)
            },
        }
    }
}

/// The stack after a stack-shuffling instruction (`pop`, `dup` and their
/// kin, `swap`), or a fault. The words are taken off top first and put
/// back in the order listed.
pub open spec fn spec_shuffle(st: Seq<u32>, i: InstructionView) -> Result<Seq<u32>, Fault> {
    let need: int = match i {
        InstructionView::Dup => 1,
        InstructionView::Dupx1 => 2,
        InstructionView::Dupx2 => 3,
        InstructionView::Dup2 => 2,
        InstructionView::Dup2x1 => 3,
        InstructionView::Dup2x2 => 4,
        InstructionView::Swap => 2,
        _ => 0,
    };
    if st.len() < need {
        Err(Fault::StackUnderflow)
    } else {
        match i {
            InstructionView::Pop => Ok(if st.len() > 0 { drop_n(st, 1) } else { st }),
            InstructionView::Pop2 => Ok(if st.len() > 1 { drop_n(st, 2) } else { seq![] }),
            InstructionView::Dup => Ok(st.push(word(st, 0))),
            InstructionView::Dupx1 => Ok(drop_n(st, 2) + seq![word(st, 0), word(st, 1), word(st, 0)]),
            InstructionView::Dupx2 => Ok(
                drop_n(st, 3) + seq![word(st, 0), word(st, 2), word(st, 1), word(st, 0)],
            ),
            InstructionView::Dup2 => Ok(
                drop_n(st, 2) + seq![word(st, 1), word(st, 0), word(st, 1), word(st, 0)],
            ),
            InstructionView::Dup2x1 => Ok(
                drop_n(st, 3) + seq![word(st, 1), word(st, 0), word(st, 2), word(st, 1), word(st, 0)],
            ),
            InstructionView::Dup2x2 => Ok(
                drop_n(st, 4) + seq![
                    word(st, 1),
                    word(st, 0),
                    word(st, 3),
                    word(st, 2),
                    word(st, 1),
                    word(st, 0),
                ],
            ),
            _ => Ok(drop_n(st, 2) + seq![word(st, 0), word(st, 1)]),
        }
    }
}

/// Whether `i` shuffles the stack.
pub open spec fn is_shuffle(i: InstructionView) -> bool {
    i is Pop || i is Pop2 || i is Dup || i is Dupx1 || i is Dupx2 || i is Dup2 || i is Dup2x1
        || i is Dup2x2 || i is Swap
}

/// Runs a stack-shuffling instruction (see `spec_shuffle`); on a fault the
/// stack is left as it was.
fn run_shuffle(st: &mut Vec<u32>, i: &Instruction) -> (r: Result<(), Fault>)
    requires
        is_shuffle(i@),
    ensures
        match spec_shuffle(old(st)@, i@) {
            Ok(s) => r is Ok && final(st)@ == s,
            Err(f) => r == Err::<(), Fault>(f) && final(st)@ == old(st)@,
        },
{
    let n = st.len();
    match i {
        Instruction::Pop => {
            if n > 0 {
                drop_words(st, 1);
            }
            Ok(())
        },
        Instruction::Pop2 => {
            if n > 1 {
                drop_words(st, 2);
            } else {
                drop_words(st, n);
                assert(st@ =~= seq![]);
            }
            Ok(())
        },
        Instruction::Dup => {
            if n < 1 {
                return Err(Fault::StackUnderflow);
            }
            let a = peek(st, 0);
            st.push(a);
            Ok(())
        },
        Instruction::Dupx1 => {
            if n < 2 {
                return Err(Fault::StackUnderflow);
            }
            let v1 = peek(st, 0);
            let v2 = peek(st, 1);
            drop_words(st, 2);
            st.push(v1);
            st.push(v2);
            st.push(v1);
            assert(st@ =~= drop_n(old(st)@, 2) + seq![v1, v2, v1]);
            Ok(())
        },
        Instruction::Dupx2 => {
            if n < 3 {
                return Err(Fault::StackUnderflow);
            }
            let v1 = peek(st, 0);
            let v2 = peek(st, 1);
            let v3 = peek(st, 2);
            drop_words(st, 3);
            st.push(v1);
            st.push(v3);
            st.push(v2);
            st.push(v1);
            assert(st@ =~= drop_n(old(st)@, 3) + seq![v1, v3, v2, v1]);
            Ok(())
        },
        Instruction::Dup2 => {
            if n < 2 {
                return Err(Fault::StackUnderflow);
            }
            let v1 = peek(st, 0);
            let v2 = peek(st, 1);
            drop_words(st, 2);
            st.push(v2);
            st.push(v1);
            st.push(v2);
            st.push(v1);
            assert(st@ =~= drop_n(old(st)@, 2) + seq![v2, v1, v2, v1]);
            Ok(())
        },
        Instruction::Dup2x1 => {
            if n < 3 {
                return Err(Fault::StackUnderflow);
            }
            let v1 = peek(st, 0);
            let v2 = peek(st, 1);
            let v3 = peek(st, 2);
            drop_words(st, 3);
            st.push(v2);
            st.push(v1);
            st.push(v3);
            st.push(v2);
            st.push(v1);
            assert(st@ =~= drop_n(old(st)@, 3) + seq![v2, v1, v3, v2, v1]);
            Ok(())
        },
        Instruction::Dup2x2 => {
            if n < 4 {
                return Err(Fault::StackUnderflow);
            }
            let v1 = peek(st, 0);
            let v2 = peek(st, 1);
            let v3 = peek(st, 2);
            let v4 = peek(st, 3);
            drop_words(st, 4);
            st.push(v2);
            st.push(v1);
            st.push(v4);
            st.push(v3);
            st.push(v2);
            st.push(v1);
            assert(st@ =~= drop_n(old(st)@, 4) + seq![v2, v1, v4, v3, v2, v1]);
            Ok(())
        },
        _ => {
            if n < 2 {
                return Err(Fault::StackUnderflow);
            }
            let v1 = peek(st, 0);
            let v2 = peek(st, 1);
            drop_words(st, 2);
            st.push(v1);
            st.push(v2);
            assert(st@ =~= drop_n(old(st)@, 2) + seq![v1, v2]);
            Ok(())
        },
    }
}

/// The stack after an integer conversion, `None` for a conversion to or
/// from floating point, or a fault.
pub open spec fn spec_convert(st: Seq<u32>, from: Type, to: Type) -> Option<Result<Seq<u32>, Fault>> {
    match (from, to) {
        (Type::Int, Type::Long) => Some(
            if st.len() < 1 {
                Err(Fault::StackUnderflow)
            } else {
                Ok(drop_n(st, 1) + long_words((word(st, 0) as i32) as i64))
            },
        ),
        (Type::Long, Type::Int) => Some(
            if st.len() < 2 {
                Err(Fault::StackUnderflow)
            } else {
                Ok(drop_n(st, 2).push((long_of(word(st, 1), word(st, 0)) as i32) as u32))
            },
        ),
        (Type::Int, Type::Byte) => Some(
            if st.len() < 1 {
                Err(Fault::StackUnderflow)
            } else {
                Ok(drop_n(st, 1).push(((word(st, 0) as i32) as i8 as i32) as u32))
            },
        ),
        (Type::Int, Type::Char) => Some(
            if st.len() < 1 {
                Err(Fault::StackUnderflow)
            } else {
                Ok(drop_n(st, 1).push((word(st, 0) as u16) as u32))
            },
        ),
        (Type::Int, Type::Short) => Some(
            if st.len() < 1 {
                Err(Fault::StackUnderflow)
            } else {
                Ok(drop_n(st, 1).push(((word(st, 0) as i32) as i16 as i32) as u32))
            },
        ),
        _ => None,
    }
}

/// Runs an integer conversion (see `spec_convert`); `Ok(false)` for one that
/// involves floating point, with the stack left as it was.
fn run_convert(st: &mut Vec<u32>, from: Type, to: Type) -> (r: Result<bool, Fault>)
    ensures
        match spec_convert(old(st)@, from, to) {
            Some(Ok(s)) => r == Ok::<bool, Fault>(true) && final(st)@ == s,
            Some(Err(f)) => r == Err::<bool, Fault>(f) && final(st)@ == old(st)@,
            None => r == Ok::<bool, Fault>(false) && final(st)@ == old(st)@,
        },
{
    let n = st.len();
    match (from, to) {
        (Type::Int, Type::Long) => {
            if n < 1 {
                return Err(Fault::StackUnderflow);
            }
            #[verifier::truncate]
            let v = peek(st, 0) as i32;
            drop_words(st, 1);
            push_long(st, v as i64);
            Ok(true)
        },
        (Type::Long, Type::Int) => {
            if n < 2 {
                return Err(Fault::StackUnderflow);
            }
            let v = long_from(peek(st, 1), peek(st, 0));
            drop_words(st, 2);
            #[verifier::truncate]
            let w = v as i32;
            st.push(w as u32);
            Ok(true)
        },
        (Type::Int, Type::Byte) => {
            if n < 1 {
                return Err(Fault::StackUnderflow);
            }
            #[verifier::truncate]
            let v = peek(st, 0) as i32;
            drop_words(st, 1);
            #[verifier::truncate]
            let b = v as i8;
            st.push((b as i32) as u32);
            Ok(true)
        },
        (Type::Int, Type::Char) => {
            if n < 1 {
                return Err(Fault::StackUnderflow);
            }
            let v = peek(st, 0);
            drop_words(st, 1);
            #[verifier::truncate]
            let c = v as u16;
            st.push(c as u32);
            Ok(true)
        },
        (Type::Int, Type::Short) => {
            if n < 1 {
                return Err(Fault::StackUnderflow);
            }
            #[verifier::truncate]
            let v = peek(st, 0) as i32;
            drop_words(st, 1);
            #[verifier::truncate]
            let h = v as i16;
            st.push((h as i32) as u32);
            Ok(true)
        },
        _ => Ok(false),
    }
}

/// What `lcmp` pushes for `l` and `r`: -1, 0 or 1.
pub open spec fn spec_long_compare(l: i64, r: i64) -> i32 {
    if l < r {
        -1i32
    } else if l > r {
        1i32
    } else {
        0i32
    }
}

/// The effect of an instruction on a frame's locals `ls`, operand stack `st`
/// and program counter `pc` (already past the instruction), for the
/// instructions that need nothing else; `Host` for the others.
pub open spec fn spec_local(ls: Seq<u32>, st: Seq<u32>, pc: usize, i: InstructionView) -> LocalEffect {
    match i {
        InstructionView::Noop => LocalEffect::Next(ls, st, pc),
        InstructionView::Push1(x) => LocalEffect::Next(ls, st.push(x), pc),
        InstructionView::Push2(a, b) => LocalEffect::Next(ls, st.push(a).push(b), pc),
        InstructionView::Load1(k) => if k < ls.len() {
            LocalEffect::Next(ls, st.push(ls[k as int]), pc)
        } else {
            LocalEffect::Fail(Fault::LocalOutOfRange)
        },
        InstructionView::Load2(k) => if k + 1 < ls.len() {
            LocalEffect::Next(ls, st.push(ls[k as int]).push(ls[k + 1]), pc)
        } else {
            LocalEffect::Fail(Fault::LocalOutOfRange)
        },
        InstructionView::Store1(k) => if st.len() < 1 {
            LocalEffect::Fail(Fault::StackUnderflow)
        } else if k >= ls.len() {
            LocalEffect::Fail(Fault::LocalOutOfRange)
        } else {
            LocalEffect::Next(ls.update(k as int, word(st, 0)), drop_n(st, 1), pc)
        },
        InstructionView::Store2(k) => if st.len() < 2 {
            LocalEffect::Fail(Fault::StackUnderflow)
        } else if k + 1 >= ls.len() {
            LocalEffect::Fail(Fault::LocalOutOfRange)
        } else {
            LocalEffect::Next(
                ls.update(k as int, word(st, 1)).update(k + 1, word(st, 0)),
                drop_n(st, 2),
                pc,
            )
        },
        InstructionView::IInc(k, inc) => if k < ls.len() {
            LocalEffect::Next(ls.update(k as int, ((ls[k as int] as i32).wrapping_add(inc)) as u32), st, pc)
        } else {
            LocalEffect::Fail(Fault::LocalOutOfRange)
        },
        InstructionView::IOp(op) => spec_iop(ls, st, pc, op),
        InstructionView::LOp(op) => spec_lop(ls, st, pc, op),
        InstructionView::Convert(a, b) => match spec_convert(st, a, b) {
            Some(Ok(s)) => LocalEffect::Next(ls, s, pc),
            Some(Err(f)) => LocalEffect::Fail(f),
            None => LocalEffect::Host,
        },
        InstructionView::LCmp => if st.len() < 4 {
            LocalEffect::Fail(Fault::StackUnderflow)
        } else {
            let v = spec_long_compare(long_of(word(st, 3), word(st, 2)), long_of(word(st, 1), word(st, 0)));
            LocalEffect::Next(ls, drop_n(st, 4).push(v as u32), pc)
        },
        InstructionView::IfCmpZ(c, b) => if st.len() < 1 {
            LocalEffect::Fail(Fault::StackUnderflow)
        } else {
            LocalEffect::Next(
                ls,
                drop_n(st, 1),
                if spec_cond(c, word(st, 0) as i32, 0) {
                    b as usize
                } else {
                    pc
                },
            )
        },
        InstructionView::ICmp(c, b) => if st.len() < 2 {
            LocalEffect::Fail(Fault::StackUnderflow)
        } else {
            LocalEffect::Next(
                ls,
                drop_n(st, 2),
                if spec_cond(c, word(st, 1) as i32, word(st, 0) as i32) {
                    b as usize
                } else {
                    pc
                },
            )
        },
        InstructionView::Goto(g) => LocalEffect::Next(ls, st, g as usize),
        InstructionView::IfNull(rev, b) => if st.len() < 1 {
            LocalEffect::Fail(Fault::StackUnderflow)
        } else {
            LocalEffect::Next(
                ls,
                drop_n(st, 1),
                if (word(st, 0) == 0) == rev {
                    b as usize
                } else {
                    pc
                },
            )
        },
        _ => if is_shuffle(i) {
            match spec_shuffle(st, i) {
                Ok(s) => LocalEffect::Next(ls, s, pc),
                Err(f) => LocalEffect::Fail(f),
            }
        } else {
            LocalEffect::Host
        },
    }
}

/// The comparisons order signed 32-bit values: `Lt` holds exactly when the
/// left value is the smaller, never of a value and itself; `Gt` is `Lt`
/// with the sides swapped; `Ge`, `Le` and `Ne` are the negations of `Lt`,
/// `Gt` and `Eq`; `Eq` holds exactly of equal values.
pub proof fn law_comparisons(l: i32, r: i32, x: i32)
    ensures
        spec_cond(Cmp::Lt, l, r) <==> (l as int) < (r as int),
        !spec_cond(Cmp::Lt, x, x),
        !spec_cond(Cmp::Gt, x, x),
        spec_cond(Cmp::Le, x, x),
        spec_cond(Cmp::Ge, x, x),
        spec_cond(Cmp::Eq, x, x),
        !spec_cond(Cmp::Ne, x, x),
        spec_cond(Cmp::Gt, l, r) <==> spec_cond(Cmp::Lt, r, l),
        spec_cond(Cmp::Ge, l, r) <==> !spec_cond(Cmp::Lt, l, r),
        spec_cond(Cmp::Le, l, r) <==> !spec_cond(Cmp::Gt, l, r),
        spec_cond(Cmp::Ne, l, r) <==> !spec_cond(Cmp::Eq, l, r),
        spec_cond(Cmp::Eq, l, r) ==> l == r,
{
}

/// `if_icmp<cond>` takes both values off and jumps exactly when the
/// comparison of the value below (left) with the value on top (right)
/// holds; `if_icmplt` of a value with itself falls through, and with a
/// smaller value below it jumps.
pub proof fn law_compare_and_branch(ls: Seq<u32>, st: Seq<u32>, pc: usize, b: i16)
    requires
        st.len() >= 2,
    ensures
        ({
            let l = word(st, 1) as i32;
            let r = word(st, 0) as i32;
            &&& spec_local(ls, st, pc, InstructionView::ICmp(Cmp::Lt, b)) == LocalEffect::Next(
                ls,
                drop_n(st, 2),
                if (l as int) < (r as int) {
                    b as usize
                } else {
                    pc
                },
            )
            &&& word(st, 1) == word(st, 0) ==> spec_local(ls, st, pc, InstructionView::ICmp(Cmp::Lt, b))
                == LocalEffect::Next(ls, drop_n(st, 2), pc)
            &&& word(st, 1) == word(st, 0) ==> spec_local(ls, st, pc, InstructionView::ICmp(Cmp::Ge, b))
                == LocalEffect::Next(ls, drop_n(st, 2), b as usize)
        }),
{
}

/// `lsub` leaves the value below minus the value on top, wrapped into 64
/// bits: it differs from the exact difference by a multiple of 2^64, and
/// equals it when it fits. Adding the value on top back gives the value
/// below.
pub proof fn law_long_subtract(l: i64, r: i64)
    ensures
        spec_long_op(Op::Sub, l, r) matches Ok(Some(x)) && (x as int == l as int - r as int || x as int
            == l as int - r as int - 0x1_0000_0000_0000_0000 || x as int == l as int - r as int
            + 0x1_0000_0000_0000_0000),
        i64::MIN <= l as int - r as int <= i64::MAX ==> spec_long_op(Op::Sub, l, r) == Ok::<Option<i64>, Fault>(
            Some((l - r) as i64),
        ),
        spec_long_op(Op::Sub, l, r) matches Ok(Some(x)) && spec_long_op(Op::Add, x, r) == Ok::<Option<i64>, Fault>(
            Some(l),
        ),
{
}

/// `ladd` wraps the sum into 64 bits, and subtracting the value on top
/// from the sum gives the value below back.
pub proof fn law_long_add(l: i64, r: i64)
    ensures
        spec_long_op(Op::Add, l, r) matches Ok(Some(x)) && (x as int == l as int + r as int || x as int
            == l as int + r as int - 0x1_0000_0000_0000_0000 || x as int == l as int + r as int
            + 0x1_0000_0000_0000_0000),
        spec_long_op(Op::Add, l, r) matches Ok(Some(x)) && spec_long_op(Op::Sub, x, r) == Ok::<Option<i64>, Fault>(
            Some(l),
        ),
{
}

/// `lcmp` orders two values: it gives 0 exactly for equal values, swapping
/// them negates the answer, and it gives -1 exactly when the value below is
/// the smaller.
pub proof fn law_long_compare(l: i64, r: i64)
    ensures
        spec_long_compare(l, r) == 0 <==> l == r,
        spec_long_compare(l, r) == -spec_long_compare(r, l),
        spec_long_compare(l, r) == -1 <==> (l as int) < (r as int),
        -1 <= spec_long_compare(l, r) <= 1,
{
}

/// Two `swap`s leave the stack as it was; `dup` then `pop` too; `dup`
/// leaves two copies of the top word.
pub proof fn law_shuffles_undo(st: Seq<u32>)
    requires
        st.len() >= 2,
    ensures
        spec_shuffle(st, InstructionView::Swap) matches Ok(s1) && spec_shuffle(s1, InstructionView::Swap)
            == Ok::<Seq<u32>, Fault>(st),
        spec_shuffle(st, InstructionView::Swap) matches Ok(s1) && word(s1, 0) == word(st, 1) && word(s1, 1)
            == word(st, 0) && drop_n(s1, 2) == drop_n(st, 2),
        spec_shuffle(st, InstructionView::Dup) matches Ok(s1) && spec_shuffle(s1, InstructionView::Pop)
            == Ok::<Seq<u32>, Fault>(st),
        spec_shuffle(st, InstructionView::Dup) matches Ok(s1) && word(s1, 0) == word(st, 0) && word(s1, 1)
            == word(st, 0),
{
    let s1 = drop_n(st, 2) + seq![word(st, 0), word(st, 1)];
    assert(drop_n(s1, 2) =~= drop_n(st, 2));
    assert(drop_n(s1, 2) + seq![word(s1, 0), word(s1, 1)] =~= st);
    let d = st.push(word(st, 0));
    assert(drop_n(d, 1) =~= st);
}

/// `lsub` on the stack: the two values (four words) come off, and their
/// difference, the value below minus the value on top, goes on.
pub proof fn law_long_subtract_step(ls: Seq<u32>, st: Seq<u32>, pc: usize)
    requires
        st.len() >= 4,
    ensures
        ({
            let l = long_of(word(st, 3), word(st, 2));
            let r = long_of(word(st, 1), word(st, 0));
            exists|x: i64|
                #![trigger long_words(x)]
                spec_local(ls, st, pc, InstructionView::LOp(Op::Sub)) == LocalEffect::Next(
                    ls,
                    drop_n(st, 4) + long_words(x),
                    pc,
                ) && (x as int == l as int - r as int || x as int == l as int - r as int - 0x1_0000_0000_0000_0000
                    || x as int == l as int - r as int + 0x1_0000_0000_0000_0000)
        }),
{
    let l = long_of(word(st, 3), word(st, 2));
    let r = long_of(word(st, 1), word(st, 0));
    law_long_subtract(l, r);
    let x = l.wrapping_sub(r);
    assert(spec_local(ls, st, pc, InstructionView::LOp(Op::Sub)) == LocalEffect::Next(
        ls,
        drop_n(st, 4) + long_words(x),
        pc,
    ));
}

/// Whether an integer comparison holds (see `spec_cond`).
fn cond(c: Cmp, l: i32, r: i32) -> (b: bool)
    ensures
        b == spec_cond(c, l, r),
{
    match c {
        Cmp::Eq => l == r,
        Cmp::Ne => l != r,
        Cmp::Lt => l < r,
        Cmp::Ge => l >= r,
        Cmp::Gt => l > r,
        Cmp::Le => l <= r,
    }
}

/// How an instruction run on a frame alone turned out.
#[derive(Clone, Copy, PartialEq, Eq, Structural, Debug)]
pub enum LocalStep {
    /// done
    Next,
    /// an `ArithmeticException` is to be thrown
    Throw,
    /// the instruction needs more than the frame
    Host,
}

/// Runs `instr` on the frame and program counter if it needs nothing else
/// (see `spec_local`). On a fault, and for an instruction that needs more,
/// nothing changes.
pub fn execute_local(frame: &mut StackFrame, pc: &mut usize, instr: &Instruction) -> (r: Result<
    LocalStep,
    Fault,
>)
    ensures
        match spec_local(old(frame)@.locals, old(frame)@.stack, *old(pc), instr@) {
            LocalEffect::Next(ls, st, p) => r == Ok::<LocalStep, Fault>(LocalStep::Next) && final(frame)@ == (StackFrameView { locals: ls, stack: st, ..old(frame)@ }) && *final(pc) == p,
            LocalEffect::Throw(st) => r == Ok::<LocalStep, Fault>(LocalStep::Throw) && final(frame)@ == (StackFrameView { stack: st, ..old(frame)@ }) && *final(pc) == *old(pc),
            LocalEffect::Host => r == Ok::<LocalStep, Fault>(LocalStep::Host) && final(frame)@ == old(frame)@ && *final(pc) == *old(pc),
            LocalEffect::Fail(f) => r == Err::<LocalStep, Fault>(f) && final(frame)@ == old(frame)@ && *final(pc) == *old(pc),
        },
{
    let n = frame.operand_stack.len();
    let nl = frame.locals.len();
    match instr {
        Instruction::Noop => Ok(LocalStep::Next),
        Instruction::Push1(x) => {
            frame.operand_stack.push(*x);
            Ok(LocalStep::Next)
        },
        Instruction::Push2(a, b) => {
            frame.operand_stack.push(*a);
            frame.operand_stack.push(*b);
            Ok(LocalStep::Next)
        },
        Instruction::Load1(k) => {
            if *k >= nl {
                return Err(Fault::LocalOutOfRange);
            }
            let v = frame.locals[*k];
            frame.operand_stack.push(v);
            Ok(LocalStep::Next)
        },
        Instruction::Load2(k) => {
            if *k >= nl || *k + 1 >= nl {
                return Err(Fault::LocalOutOfRange);
            }
            let hi = frame.locals[*k];
            let lo = frame.locals[*k + 1];
            frame.operand_stack.push(hi);
            frame.operand_stack.push(lo);
            Ok(LocalStep::Next)
        },
        Instruction::Store1(k) => {
            if n < 1 {
                return Err(Fault::StackUnderflow);
            }
            if *k >= nl {
                return Err(Fault::LocalOutOfRange);
            }
            let v = peek(&frame.operand_stack, 0);
            drop_words(&mut frame.operand_stack, 1);
            frame.locals.set(*k, v);
            Ok(LocalStep::Next)
        },
        Instruction::Store2(k) => {
            if n < 2 {
                return Err(Fault::StackUnderflow);
            }
            if *k >= nl || *k + 1 >= nl {
                return Err(Fault::LocalOutOfRange);
            }
            let lo = peek(&frame.operand_stack, 0);
            let hi = peek(&frame.operand_stack, 1);
            drop_words(&mut frame.operand_stack, 2);
            frame.locals.set(*k, hi);
            frame.locals.set(*k + 1, lo);
            Ok(LocalStep::Next)
        },
        Instruction::IInc(k, inc) => {
            if *k >= nl {
                return Err(Fault::LocalOutOfRange);
            }
            #[verifier::truncate]
            let v = frame.locals[*k] as i32;
            frame.locals.set(*k, v.wrapping_add(*inc) as u32);
            Ok(LocalStep::Next)
        },
        Instruction::IOp(op) => {
            if run_iop(frame, *op)? {
                Ok(LocalStep::Next)
            } else {
                Ok(LocalStep::Throw)
            }
        },
        Instruction::LOp(op) => {
            if run_lop(frame, *op)? {
                Ok(LocalStep::Next)
            } else {
                Ok(LocalStep::Throw)
            }
        },
        Instruction::Convert(a, b) => {
            if run_convert(&mut frame.operand_stack, *a, *b)? {
                Ok(LocalStep::Next)
            } else {
                Ok(LocalStep::Host)
            }
        },
        Instruction::LCmp => {
            if n < 4 {
                return Err(Fault::StackUnderflow);
            }
            let r = long_from(peek(&frame.operand_stack, 1), peek(&frame.operand_stack, 0));
            let l = long_from(peek(&frame.operand_stack, 3), peek(&frame.operand_stack, 2));
            let v: i32 = if l < r {
                -1
            } else if l > r {
                1
            } else {
                0
            };
            drop_words(&mut frame.operand_stack, 4);
            frame.operand_stack.push(v as u32);
            Ok(LocalStep::Next)
        },
        Instruction::IfCmpZ(c, b) => {
            if n < 1 {
                return Err(Fault::StackUnderflow);
            }
            #[verifier::truncate]
            let v = peek(&frame.operand_stack, 0) as i32;
            drop_words(&mut frame.operand_stack, 1);
            if cond(*c, v, 0) {
                #[verifier::truncate]
                let t = *b as usize;
                *pc = t;
            }
            Ok(LocalStep::Next)
        },
        Instruction::ICmp(c, b) => {
            if n < 2 {
                return Err(Fault::StackUnderflow);
            }
            #[verifier::truncate]
            let r = peek(&frame.operand_stack, 0) as i32;
            #[verifier::truncate]
            let l = peek(&frame.operand_stack, 1) as i32;
            drop_words(&mut frame.operand_stack, 2);
            if cond(*c, l, r) {
                #[verifier::truncate]
                let t = *b as usize;
                *pc = t;
            }
            Ok(LocalStep::Next)
        },
        Instruction::Goto(g) => {
            #[verifier::truncate]
            let t = *g as usize;
            *pc = t;
            Ok(LocalStep::Next)
        },
        Instruction::IfNull(rev, b) => {
            if n < 1 {
                return Err(Fault::StackUnderflow);
            }
            let v = peek(&frame.operand_stack, 0);
            drop_words(&mut frame.operand_stack, 1);
            if (v == 0) == *rev {
                #[verifier::truncate]
                let t = *b as usize;
                *pc = t;
            }
            Ok(LocalStep::Next)
        },
        Instruction::Pop | Instruction::Pop2 | Instruction::Dup | Instruction::Dupx1
        | Instruction::Dupx2 | Instruction::Dup2 | Instruction::Dup2x1 | Instruction::Dup2x2
        | Instruction::Swap => {
            run_shuffle(&mut frame.operand_stack, instr)?;
            Ok(LocalStep::Next)
        },
        _ => Ok(LocalStep::Host),
    }
}

} // verus!
