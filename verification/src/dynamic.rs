//! `invokedynamic` call sites: string concatenation and lambda objects.
use vstd::prelude::*;

use crate::class::{Constant, ConstantView, FieldType, FieldTypeView, MethodDescriptor, MethodDescriptorView, MethodHandle, MethodHandleView};
use crate::error::Error;
use crate::object::{Array1, Array2, LambdaOverride, LambdaOverrideView, Object, ObjectView};
use crate::text::{chars_eq, copy_chars};
use crate::thread::{fault_of, misc_only, push_string_effect, same_thread, with_stack, frames_view, fresh_frame, return_one_effect, return_two_effect, return_void_effect, Step, Thread};
use crate::data::{class_position, lookup_entry};
use crate::error::ErrorView;
use crate::frame::StackFrameView;
use crate::error::Fault;
use crate::heap::{object_at, spec_inc_ref, string_name, Heap, HeapView};
use crate::object::{NativeField, NativeFieldView};
use crate::stacking::join_words;
use crate::text::{char_from_u32, is_scalar};

verus! {

/// The character of a decimal digit.
pub open spec fn digit(d: int) -> char {
    if d == 0 { '0' } else if d == 1 { '1' } else if d == 2 { '2' } else if d == 3 { '3' }
    else if d == 4 { '4' } else if d == 5 { '5' } else if d == 6 { '6' } else if d == 7 { '7' }
    else if d == 8 { '8' } else { '9' }
}

/// The decimal digits of `n`, most significant first.
pub open spec fn decimal(n: nat) -> Seq<char>
    decreases n,
{
    if n < 10 {
        seq![digit(n as int)]
    } else {
        decimal(n / 10).push(digit((n % 10) as int))
    }
}

/// The decimal text of `n`, with a minus sign when it is negative.
pub open spec fn signed_decimal(n: int) -> Seq<char> {
    if n < 0 {
        seq!['-'] + decimal((-n) as nat)
    } else {
        decimal(n as nat)
    }
}

/// The character of the digit `d`.
fn digit_char(d: u64) -> (c: char)
    requires
        d < 10,
    ensures
        c == digit(d as int),
{
    if d == 0 { '0' } else if d == 1 { '1' } else if d == 2 { '2' } else if d == 3 { '3' }
    else if d == 4 { '4' } else if d == 5 { '5' } else if d == 6 { '6' } else if d == 7 { '7' }
    else if d == 8 { '8' } else { '9' }
}

/// Appends the decimal digits of `n`.
pub fn push_decimal(out: &mut Vec<char>, n: u64)
    ensures
        final(out)@ == old(out)@ + decimal(n as nat),
    decreases n,
{
    if n >= 10 {
        push_decimal(out, n / 10);
    }
    out.push(digit_char(n % 10));
    proof {
        if n >= 10 {
            assert(out@ =~= old(out)@ + decimal(n as nat));
        } else {
            assert(out@ =~= old(out)@ + decimal(n as nat));
        }
    }
}

/// Appends the decimal text of `v`.
pub fn push_signed(out: &mut Vec<char>, v: i64)
    ensures
        final(out)@ == old(out)@ + signed_decimal(v as int),
{
    if v < 0 {
        out.push('-');
        let magnitude: u64 = if v == i64::MIN {
            0x8000_0000_0000_0000
        } else {
            (-v) as u64
        };
        let ghost mid = out@;
        push_decimal(out, magnitude);
        assert(out@ =~= old(out)@ + signed_decimal(v as int));
    } else {
        push_decimal(out, v as u64);
    }
}

/// A part of a concatenated string: text, or a `float` or `double` (by its
/// bits) for the host to write out.
pub enum ConcatPiece {
    Text(Vec<char>),
    Float(u32),
    Double(u64),
}

/// The mathematical value of a `ConcatPiece`.
pub enum ConcatPieceView {
    Text(Seq<char>),
    Float(u32),
    Double(u64),
}

impl View for ConcatPiece {
    type V = ConcatPieceView;

    open spec fn view(&self) -> ConcatPieceView {
        match self {
            ConcatPiece::Text(t) => ConcatPieceView::Text(t@),
            ConcatPiece::Float(f) => ConcatPieceView::Float(*f),
            ConcatPiece::Double(d) => ConcatPieceView::Double(*d),
        }
    }
}

/// The view of each piece of a list.
pub open spec fn pieces_view(s: Seq<ConcatPiece>) -> Seq<ConcatPieceView> {
    s.map_values(|p: ConcatPiece| p@)
}

/// The name `java/lang/String` as a type.
pub open spec fn is_string_type(t: FieldTypeView) -> bool {
    t == FieldTypeView::Object(crate::heap::string_name())
}

/// The characters of the string object `ptr`.
pub open spec fn string_at(h: HeapView, ptr: u32) -> Result<Seq<char>, Fault> {
    match object_at(h, ptr as int) {
        None => Err(Fault::NullPointer),
        Some(o) => if o.native_fields.len() > 0 && o.native_fields[0] is Str {
            Ok(o.native_fields[0]->Str_0)
        } else {
            Err(Fault::WrongObjectKind)
        },
    }
}

/// The piece for one argument of type `t`, taken from the end of `ws` (the
/// argument words, the first argument's last), and the words left.
pub open spec fn spec_argument(h: HeapView, t: FieldTypeView, ws: Seq<u32>) -> Result<
    (ConcatPieceView, Seq<u32>),
    Fault,
> {
    if t.size() == 2 {
        if ws.len() < 2 {
            Err(Fault::StackUnderflow)
        } else {
            let value = join_words(ws.last(), ws[ws.len() - 2]);
            let rest = ws.drop_last().drop_last();
            match t {
                FieldTypeView::Long => Ok((ConcatPieceView::Text(signed_decimal((value as i64) as int)), rest)),
                FieldTypeView::Double => Ok((ConcatPieceView::Double(value), rest)),
                _ => Err(Fault::Unsupported),
            }
        }
    } else if ws.len() < 1 {
        Err(Fault::StackUnderflow)
    } else {
        let v = ws.last();
        let rest = ws.drop_last();
        match t {
            FieldTypeView::Boolean => Ok(
                (
                    ConcatPieceView::Text(
                        if v == 1 {
                            seq!['t', 'r', 'u', 'e']
                        } else {
                            seq!['f', 'a', 'l', 's', 'e']
                        },
                    ),
                    rest,
                ),
            ),
            FieldTypeView::Int | FieldTypeView::Short | FieldTypeView::Byte => Ok(
                (ConcatPieceView::Text(signed_decimal((v as i32) as int)), rest),
            ),
            FieldTypeView::Char => if is_scalar(v) {
                Ok((ConcatPieceView::Text(seq![v as char]), rest))
            } else {
                Err(Fault::Unsupported)
            },
            FieldTypeView::Float => Ok((ConcatPieceView::Float(v), rest)),
            _ => if is_string_type(t) {
                match string_at(h, v) {
                    Ok(s) => Ok((ConcatPieceView::Text(s), rest)),
                    Err(f) => Err(f),
                }
            } else {
                Err(Fault::Unsupported)
            },
        }
    }
}

/// The pieces of `makeConcatWithConstants` from position `k` of the
/// template on: each `\u{1}` stands for the next argument, every other
/// character for itself.
pub open spec fn spec_concat(
    h: HeapView,
    template: Seq<char>,
    k: int,
    params: Seq<FieldTypeView>,
    pi: int,
    ws: Seq<u32>,
) -> Result<Seq<ConcatPieceView>, Fault>
    decreases template.len() - k,
{
    if k < 0 || k >= template.len() {
        Ok(seq![])
    } else if template[k] != '\u{1}' {
        match spec_concat(h, template, k + 1, params, pi, ws) {
            Ok(rest) => Ok(seq![ConcatPieceView::Text(seq![template[k]])] + rest),
            Err(f) => Err(f),
        }
    } else if pi < 0 || pi >= params.len() {
        Err(Fault::Unsupported)
    } else {
        match spec_argument(h, params[pi], ws) {
            Err(f) => Err(f),
            Ok((p, ws2)) => match spec_concat(h, template, k + 1, params, pi + 1, ws2) {
                Ok(rest) => Ok(seq![p] + rest),
                Err(f) => Err(f),
            },
        }
    }
}

/// The characters of the string object `ptr` (see `string_at`).
pub fn string_of(heap: &Heap, ptr: u32) -> (r: Result<Vec<char>, Fault>)
    ensures
        match string_at(heap@, ptr) {
            Ok(s) => r matches Ok(v) && v@ == s,
            Err(f) => r == Err::<Vec<char>, Fault>(f),
        },
{
    match heap.get(ptr as usize) {
        None => Err(Fault::NullPointer),
        Some(o) => {
            if o.native_fields.len() == 0 {
                return Err(Fault::WrongObjectKind);
            }
            assert(o@.native_fields[0] == o.native_fields@[0]@);
            match &o.native_fields[0] {
                NativeField::Str(s) => Ok(crate::text::copy_chars(s)),
                _ => Err(Fault::WrongObjectKind),
            }
        },
    }
}

/// The piece for one argument (see `spec_argument`); takes its words off
/// the end of `ws`.
fn argument_piece(heap: &Heap, t: &FieldType, ws: &mut Vec<u32>) -> (r: Result<ConcatPiece, Fault>)
    ensures
        match spec_argument(heap@, t@, old(ws)@) {
            Ok((p, rest)) => r matches Ok(x) && x@ == p && final(ws)@ == rest,
            Err(f) => r == Err::<ConcatPiece, Fault>(f),
        },
{
    let n = ws.len();
    if t.get_size() == 2 {
        if n < 2 {
            return Err(Fault::StackUnderflow);
        }
        let lower = ws.pop().unwrap();
        let upper = ws.pop().unwrap();
        let value = lower as u64 * 0x1_0000_0000 + upper as u64;
        match t {
            FieldType::Long => {
                let mut text: Vec<char> = Vec::new();
                push_signed(&mut text, value as i64);
                assert(text@ =~= signed_decimal((value as i64) as int));
                Ok(ConcatPiece::Text(text))
            },
            FieldType::Double => Ok(ConcatPiece::Double(value)),
            _ => Err(Fault::Unsupported),
        }
    } else {
        if n < 1 {
            return Err(Fault::StackUnderflow);
        }
        let v = ws.pop().unwrap();
        match t {
            FieldType::Boolean => {
                let text = if v == 1 {
                    vec!['t', 'r', 'u', 'e']
                } else {
                    vec!['f', 'a', 'l', 's', 'e']
                };
                assert(text@ =~= if v == 1 {
                    seq!['t', 'r', 'u', 'e']
                } else {
                    seq!['f', 'a', 'l', 's', 'e']
                });
                Ok(ConcatPiece::Text(text))
            },
            FieldType::Int | FieldType::Short | FieldType::Byte => {
                let mut text: Vec<char> = Vec::new();
                #[verifier::truncate]
                let i = v as i32;
                push_signed(&mut text, i as i64);
                assert(text@ =~= signed_decimal((v as i32) as int));
                Ok(ConcatPiece::Text(text))
            },
            FieldType::Char => match char_from_u32(v) {
                Some(c) => {
                    let text = vec![c];
                    assert(text@ =~= seq![v as char]);
                    Ok(ConcatPiece::Text(text))
                },
                None => Err(Fault::Unsupported),
            },
            FieldType::Float => Ok(ConcatPiece::Float(v)),
            FieldType::Object(c) => {
                let name = crate::heap::string_class_name();
                if crate::text::chars_eq(c.as_slice(), name.as_slice()) {
                    match string_of(heap, v) {
                        Ok(s) => Ok(ConcatPiece::Text(s)),
                        Err(f) => Err(f),
                    }
                } else {
                    Err(Fault::Unsupported)
                }
            },
            _ => Err(Fault::Unsupported),
        }
    }
}

/// The pieces of `makeConcatWithConstants` for `template`, parameter types
/// `params` and argument words `words` (the first argument's last); see
/// `spec_concat`.
pub fn concat_pieces(heap: &Heap, template: &Vec<char>, params: &Vec<FieldType>, words: Vec<u32>) -> (r: Result<
    Vec<ConcatPiece>,
    Fault,
>)
    ensures
        match spec_concat(heap@, template@, 0, crate::class::field_types_view(params@), 0, words@) {
            Ok(ps) => r matches Ok(v) && pieces_view(v@) == ps,
            Err(f) => r == Err::<Vec<ConcatPiece>, Fault>(f),
        },
{
    let ghost pv = crate::class::field_types_view(params@);
    let ghost whole = spec_concat(heap@, template@, 0, pv, 0, words@);
    let mut ws = words;
    let mut out: Vec<ConcatPiece> = Vec::new();
    let mut k: usize = 0;
    let mut pi: usize = 0;
    assert(pieces_view(out@) + seq![] =~= Seq::<ConcatPieceView>::empty());
    while k < template.len()
        invariant
            pv == crate::class::field_types_view(params@),
            whole == spec_concat(heap@, template@, 0, pv, 0, words@),
            k <= template@.len(),
            whole == match spec_concat(heap@, template@, k as int, pv, pi as int, ws@) {
                Ok(rest) => Ok(pieces_view(out@) + rest),
                Err(f) => Err(f),
            },
        decreases template@.len() - k,
    {
        let c = template[k];
        let ghost before = pieces_view(out@);
        if c != '\u{1}' {
            let t = vec![c];
            assert(t@ =~= seq![c]);
            out.push(ConcatPiece::Text(t));
            proof {
                assert(pieces_view(out@) =~= before.push(ConcatPieceView::Text(seq![c])));
                match spec_concat(heap@, template@, k + 1, pv, pi as int, ws@) {
                    Ok(rest) => {
                        assert(before + (seq![ConcatPieceView::Text(seq![c])] + rest) =~= pieces_view(out@) + rest);
                    },
                    Err(_) => {},
                }
            }
        } else {
            if pi >= params.len() {
                return Err(Fault::Unsupported);
            }
            assert(pv[pi as int] == params@[pi as int]@);
            let p = argument_piece(heap, &params[pi], &mut ws)?;
            out.push(p);
            proof {
                assert(pieces_view(out@) =~= before.push(p@));
                match spec_concat(heap@, template@, k + 1, pv, pi + 1, ws@) {
                    Ok(rest) => {
                        assert(before + (seq![p@] + rest) =~= pieces_view(out@) + rest);
                    },
                    Err(_) => {},
                }
            }
            pi = pi + 1;
        }
        k = k + 1;
    }
    assert(pieces_view(out@) + seq![] =~= pieces_view(out@));
    Ok(out)
}

/// Whether a piece is a number for the host to write.
pub open spec fn is_float_piece(p: ConcatPieceView) -> bool {
    !(p is Text)
}

/// The text of pieces that are all text.
pub open spec fn joined(ps: Seq<ConcatPieceView>) -> Seq<char>
    decreases ps.len(),
{
    if ps.len() == 0 {
        seq![]
    } else {
        joined(ps.drop_last()) + match ps.last() {
            ConcatPieceView::Text(t) => t,
            _ => seq![],
        }
    }
}

/// The text of the pieces, when none is a number for the host to write.
fn join_pieces(pieces: &Vec<ConcatPiece>) -> (r: Option<Vec<char>>)
    ensures
        (exists|i: int| 0 <= i < pieces@.len() && is_float_piece(#[trigger] pieces@[i]@)) <==> r is None,
        r matches Some(t) ==> t@ == joined(pieces_view(pieces@)),
{
    let ghost pv = pieces_view(pieces@);
    let mut out: Vec<char> = Vec::new();
    let mut i: usize = 0;
    while i < pieces.len()
        invariant
            pv == pieces_view(pieces@),
            i <= pieces@.len(),
            forall|j: int| 0 <= j < i ==> !is_float_piece(#[trigger] pieces@[j]@),
            out@ == joined(pv.subrange(0, i as int)),
        decreases pieces@.len() - i,
    {
        assert(pv.subrange(0, i + 1).drop_last() =~= pv.subrange(0, i as int));
        match &pieces[i] {
            ConcatPiece::Text(t) => {
                let mut k: usize = 0;
                let ghost before = out@;
                while k < t.len()
                    invariant
                        k <= t@.len(),
                        out@ == before + t@.subrange(0, k as int),
                    decreases t@.len() - k,
                {
                    out.push(t[k]);
                    k = k + 1;
                    assert(out@ =~= before + t@.subrange(0, k as int));
                }
                assert(t@.subrange(0, t@.len() as int) =~= t@);
            },
            _ => {
                assert(is_float_piece(pieces@[i as int]@));
                return None;
            },
        }
        i = i + 1;
    }
    assert(pv.subrange(0, pv.len() as int) =~= pv);
    Some(out)
}

/// The name `makeConcatWithConstants`.
pub open spec fn make_concat() -> Seq<char> {
    seq!['m', 'a', 'k', 'e', 'C', 'o', 'n', 'c', 'a', 't', 'W', 'i', 't', 'h', 'C', 'o', 'n', 's', 't', 'a', 'n', 't', 's']
}

/// The name `java/lang/invoke/StringConcatFactory`.
pub open spec fn concat_factory() -> Seq<char> {
    seq![
        'j', 'a', 'v', 'a', '/', 'l', 'a', 'n', 'g', '/', 'i', 'n', 'v', 'o', 'k', 'e', '/', 'S', 't', 'r',
        'i', 'n', 'g', 'C', 'o', 'n', 'c', 'a', 't', 'F', 'a', 'c', 't', 'o', 'r', 'y',
    ]
}

/// The name `metafactory`.
pub open spec fn metafactory() -> Seq<char> {
    seq!['m', 'e', 't', 'a', 'f', 'a', 'c', 't', 'o', 'r', 'y']
}

/// The name `java/lang/invoke/LambdaMetafactory`.
pub open spec fn lambda_factory() -> Seq<char> {
    seq![
        'j', 'a', 'v', 'a', '/', 'l', 'a', 'n', 'g', '/', 'i', 'n', 'v', 'o', 'k', 'e', '/', 'L', 'a', 'm',
        'b', 'd', 'a', 'M', 'e', 't', 'a', 'f', 'a', 'c', 't', 'o', 'r', 'y',
    ]
}

/// The name `makeConcatWithConstants`.
fn make_concat_name() -> (r: Vec<char>)
    ensures
        r@ == make_concat(),
{
    let r = vec!['m', 'a', 'k', 'e', 'C', 'o', 'n', 'c', 'a', 't', 'W', 'i', 't', 'h', 'C', 'o', 'n', 's', 't', 'a', 'n', 't', 's'];
    assert(r@ =~= make_concat());
    r
}

/// The name `java/lang/invoke/StringConcatFactory`.
fn concat_factory_name() -> (r: Vec<char>)
    ensures
        r@ == concat_factory(),
{
    let r = vec![
        'j', 'a', 'v', 'a', '/', 'l', 'a', 'n', 'g', '/', 'i', 'n', 'v', 'o', 'k', 'e', '/', 'S', 't', 'r',
        'i', 'n', 'g', 'C', 'o', 'n', 'c', 'a', 't', 'F', 'a', 'c', 't', 'o', 'r', 'y',
    ];
    assert(r@ =~= concat_factory());
    r
}

/// The name `metafactory`.
fn metafactory_name() -> (r: Vec<char>)
    ensures
        r@ == metafactory(),
{
    let r = vec!['m', 'e', 't', 'a', 'f', 'a', 'c', 't', 'o', 'r', 'y'];
    assert(r@ =~= metafactory());
    r
}

/// The name `java/lang/invoke/LambdaMetafactory`.
fn lambda_factory_name() -> (r: Vec<char>)
    ensures
        r@ == lambda_factory(),
{
    let r = vec![
        'j', 'a', 'v', 'a', '/', 'l', 'a', 'n', 'g', '/', 'i', 'n', 'v', 'o', 'k', 'e', '/', 'L', 'a', 'm',
        'b', 'd', 'a', 'M', 'e', 't', 'a', 'f', 'a', 'c', 't', 'o', 'r', 'y',
    ];
    assert(r@ =~= lambda_factory());
    r
}

/// A copy of a list of constants.
fn copy_constants(v: &Vec<Constant>) -> (r: Vec<Constant>)
    ensures
        crate::class::constants_view(r@) == crate::class::constants_view(v@),
{
    let mut r: Vec<Constant> = Vec::new();
    let mut i: usize = 0;
    while i < v.len()
        invariant
            i <= v@.len(),
            r@.len() == i,
            forall|j: int| 0 <= j < i ==> (#[trigger] r@[j])@ == v@[j]@,
        decreases v@.len() - i,
    {
        r.push(v[i].copy());
        i = i + 1;
    }
    assert(crate::class::constants_view(r@) =~= crate::class::constants_view(v@));
    r
}

/// What a bootstrap method makes of its call site.
pub enum BootstrapRunner {
    /// string concatenation by a template
    MakeConcatWithConsts { template: Vec<char>, parameters: Vec<FieldType>, parameter_size: usize },
    /// an object of the interface `lambda_interface` with `captures_length`
    /// captured words as its fields
    LambdaMetaFactory { captures_length: usize, lambda_interface: Vec<char> },
    /// a bootstrap method this machine does not run
    Todo { method_handle: MethodHandle, args: Vec<Constant> },
}

/// The runner for a bootstrap method: every one is left to do.
pub fn make_runner(method_handle: &MethodHandle, args: &[Constant]) -> (r: BootstrapRunner)
    ensures
        r matches BootstrapRunner::Todo { method_handle: h, args: a } && h@ == method_handle@
            && crate::class::constants_view(a@) == crate::class::constants_view(args@),
{
    let mut copied: Vec<Constant> = Vec::new();
    let mut i: usize = 0;
    while i < args.len()
        invariant
            i <= args@.len(),
            copied@.len() == i,
            forall|j: int| 0 <= j < i ==> (#[trigger] copied@[j])@ == args@[j]@,
        decreases args@.len() - i,
    {
        copied.push(args[i].copy());
        i = i + 1;
    }
    assert(crate::class::constants_view(copied@) =~= crate::class::constants_view(args@));
    BootstrapRunner::Todo { method_handle: method_handle.copy(), args: copied }
}

impl Thread {
    /// Takes `n` words off the running frame's stack, the top first.
    fn pop_words(&mut self, n: usize) -> (r: Result<Vec<u32>, Fault>)
        ensures
            final(self).heap == old(self).heap,
            final(self).class_area == old(self).class_area,
            final(self).method_area == old(self).method_area,
            final(self).pc_register == old(self).pc_register,
            final(self).stack == old(self).stack,
            n > old(self).stackframe@.stack.len() ==> r == Err::<Vec<u32>, Fault>(Fault::StackUnderflow)
                && final(self).stackframe == old(self).stackframe,
            n <= old(self).stackframe@.stack.len() ==> ({
                let st = old(self).stackframe@.stack;
                let start = st.len() - n;
                &&& r matches Ok(v) && v@ == st.subrange(start, st.len() as int).reverse()
                &&& final(self).stackframe@ == crate::thread::with_stack(old(self).stackframe@, st.subrange(0, start))
            }),
    {
        if n > self.stackframe.operand_stack.len() {
            return Err(Fault::StackUnderflow);
        }
        let ghost st = self.stackframe@.stack;
        let ghost sf0 = self.stackframe@;
        let start = self.stackframe.operand_stack.len() - n;
        let mut out: Vec<u32> = Vec::new();
        while self.stackframe.operand_stack.len() > start
            invariant
                self.heap == old(self).heap,
                self.class_area == old(self).class_area,
                self.method_area == old(self).method_area,
                self.pc_register == old(self).pc_register,
                self.stack == old(self).stack,
                start <= self.stackframe.operand_stack@.len() <= st.len(),
                start == st.len() - n,
                self.stackframe@ == (crate::frame::StackFrameView { stack: self.stackframe@.stack, ..sf0 }),
                self.stackframe.operand_stack@ == st.subrange(0, self.stackframe.operand_stack@.len() as int),
                out@ == st.subrange(self.stackframe.operand_stack@.len() as int, st.len() as int).reverse(),
            decreases self.stackframe.operand_stack@.len(),
        {
            let w = self.stackframe.operand_stack.pop().unwrap();
            out.push(w);
            proof {
                assert(self.stackframe.operand_stack@ =~= st.subrange(0, self.stackframe.operand_stack@.len() as int));
                assert(out@ =~= st.subrange(self.stackframe.operand_stack@.len() as int, st.len() as int).reverse());
            }
        }
        Ok(out)
    }

    /// Finishes a string concatenation: pushes the string when every piece
    /// is text, else hands the pieces to the host.
    fn finish_concat(&mut self, pieces: Vec<ConcatPiece>) -> (r: Result<Step, Error>)
        requires
            old(self).wf(),
        ensures
            final(self).wf(),
            finish_concat_effect(*old(self), *final(self), r, pieces_view(pieces@)),
    {
        proof {
            assert forall|i: int| 0 <= i < pieces@.len() implies pieces_view(pieces@)[i] == #[trigger] pieces@[i]@ by {}
        }
        match join_pieces(&pieces) {
            Some(text) => match self.push_string(text) {
                Ok(()) => Ok(Step::Done),
                Err(f) => Err(Error::Misc(f)),
            },
            None => Ok(Step::Concat(pieces)),
        }
    }

    /// A concatenation call site: takes the top `n` words off the stack as
    /// the arguments of the types `params`, makes the pieces by `template`
    /// (see `concat_pieces`) and finishes them (see `finish_concat`).
    fn concat_site(&mut self, template: &Vec<char>, params: &Vec<FieldType>, n: usize) -> (r: Result<Step, Error>)
        requires
            old(self).wf(),
        ensures
            final(self).wf(),
            concat_effect(*old(self), *final(self), r, template@, crate::class::field_types_view(params@), n as nat),
    {
        let words = match self.pop_words(n) {
            Ok(w) => w,
            Err(f) => {
                return Err(Error::Misc(f));
            },
        };
        let ghost tp = *self;
        let pieces = match concat_pieces(&self.heap, template, params, words) {
            Ok(p) => p,
            Err(f) => {
                return Err(Error::Misc(f));
            },
        };
        let r = self.finish_concat(pieces);
        assert(popped_state(*old(self), tp, n as nat));
        r
    }

    /// Puts `obj` on the heap in place of the top `n` words of the stack
    /// and pushes its reference, counted once.
    fn push_made(&mut self, obj: Object, n: usize) -> (r: Result<Step, Error>)
        requires
            old(self).wf(),
            n <= old(self).stackframe@.stack.len(),
        ensures
            final(self).wf(),
            push_made_effect(*old(self), *final(self), r, obj@, n as nat),
    {
        let len = self.stackframe.operand_stack.len();
        let ghost st = self.stackframe@.stack;
        self.stackframe.operand_stack.truncate(len - n);
        assert(self.stackframe.operand_stack@ =~= st.subrange(0, st.len() - n));
        let ptr = self.heap.allocate(obj);
        match self.heap.inc_ref(ptr) {
            Ok(()) => {},
            Err(f) => {
                return Err(Error::Misc(f));
            },
        }
        self.stackframe.operand_stack.push(ptr);
        Ok(Step::Done)
    }

    /// A `LambdaMetafactory.metafactory` call site of the interface method
    /// `name`: a lambda object of the class `class` capturing the top `n`
    /// words of the stack, in their order, pushed and counted once.
    fn lambda_site(
        &mut self,
        class: Vec<char>,
        name: &Vec<char>,
        d: &MethodDescriptor,
        h: &MethodHandle,
        n: usize,
    ) -> (r: Result<Step, Error>)
        requires
            old(self).wf(),
        ensures
            final(self).wf(),
            ({
                let st = old(self).stackframe@.stack;
                push_made_effect(
                    *old(self),
                    *final(self),
                    r,
                    lambda_object(class@, name@, d@, h@, st.subrange(st.len() - n, st.len() as int)),
                    n as nat,
                )
            }),
    {
        let len = self.stackframe.operand_stack.len();
        if n > len {
            return Err(Error::Misc(Fault::StackUnderflow));
        }
        let captures = slice_from(self.stackframe.operand_stack.as_slice(), len - n);
        let lambda = LambdaOverride {
            method_name: copy_chars(name),
            method_descriptor: d.copy(),
            invoke: h.copy(),
            captures,
        };
        let obj = Object { fields: Vec::new(), native_fields: vec![NativeField::Lambda(lambda)], class };
        proof {
            assert(obj@.native_fields =~= seq![NativeFieldView::Lambda(lambda@)]);
        }
        self.push_made(obj, n)
    }

    /// A lambda call site made by a runner: an object of the interface
    /// `class` whose fields are the top `n` words of the stack, in their
    /// order, pushed and counted once.
    fn fields_site(&mut self, class: &Vec<char>, n: usize) -> (r: Result<Step, Error>)
        requires
            old(self).wf(),
        ensures
            final(self).wf(),
            ({
                let st = old(self).stackframe@.stack;
                push_made_effect(
                    *old(self),
                    *final(self),
                    r,
                    ObjectView { fields: st.subrange(st.len() - n, st.len() as int), native_fields: seq![], class: class@ },
                    n as nat,
                )
            }),
    {
        let len = self.stackframe.operand_stack.len();
        if n > len {
            return Err(Error::Misc(Fault::StackUnderflow));
        }
        let fields = slice_from(self.stackframe.operand_stack.as_slice(), len - n);
        let obj = Object { fields, native_fields: Vec::new(), class: copy_chars(class) };
        proof {
            assert(obj@.native_fields =~= Seq::<NativeFieldView>::empty());
        }
        self.push_made(obj, n)
    }

    /// `invokedynamic` with the running class's bootstrap method number
    /// `index`: a `StringConcatFactory.makeConcatWithConstants` call site
    /// concatenates its arguments by the template (see `concat_pieces`); a
    /// `LambdaMetafactory.metafactory` one makes a lambda object that keeps
    /// the captured words; any other is refused.
    pub fn invoke_dynamic(&mut self, index: u16, method_name: &Vec<char>, descriptor: &MethodDescriptor) -> (r: Result<
        Step,
        Error,
    >)
        requires
            old(self).wf(),
        ensures
            final(self).wf(),
            invoke_dynamic_effect(*old(self), *final(self), r, index, method_name@, descriptor@),
    {
        let class = self.stackframe.class.clone();
        if index as usize >= class.bootstrap_methods.len() {
            return Err(Error::Misc(Fault::Unsupported));
        }
        let bm = &class.bootstrap_methods[index as usize];
        let (bclass, bname) = match &bm.method {
            MethodHandle::InvokeStatic { class, name, .. } => (class, name),
            _ => {
                return Err(Error::Misc(Fault::Unsupported));
            },
        };
        let string_name = crate::heap::string_class_name();
        let returns_string = match &descriptor.return_type {
            Some(FieldType::Object(o)) => chars_eq(o.as_slice(), string_name.as_slice()),
            _ => false,
        };
        if chars_eq(method_name.as_slice(), make_concat_name().as_slice()) && chars_eq(
            bclass.as_slice(),
            concat_factory_name().as_slice(),
        ) && chars_eq(bname.as_slice(), make_concat_name().as_slice()) && returns_string {
            if bm.args.len() != 1 {
                return Err(Error::Misc(Fault::Unsupported));
            }
            let template = match &bm.args[0] {
                Constant::String(s) | Constant::StringRef(s) => s,
                _ => {
                    return Err(Error::Misc(Fault::Unsupported));
                },
            };
            self.concat_site(template, &descriptor.parameters, descriptor.parameter_size)
        } else if chars_eq(bname.as_slice(), metafactory_name().as_slice()) && chars_eq(
            bclass.as_slice(),
            lambda_factory_name().as_slice(),
        ) {
            let lambda_class = match &descriptor.return_type {
                Some(FieldType::Object(o)) => copy_chars(o),
                _ => {
                    return Err(Error::Misc(Fault::Unsupported));
                },
            };
            if bm.args.len() != 3 {
                return Err(Error::Misc(Fault::Unsupported));
            }
            let (interface, handle) = match (&bm.args[0], &bm.args[1], &bm.args[2]) {
                (Constant::MethodType(d), Constant::MethodHandle(h), Constant::MethodType(_)) => (d, h),
                _ => {
                    return Err(Error::Misc(Fault::Unsupported));
                },
            };
            self.lambda_site(lambda_class, method_name, interface, handle, descriptor.parameter_size)
        } else {
            Err(Error::Misc(Fault::Unsupported))
        }
    }
}

impl BootstrapRunner {
    /// Runs the call site on `thread`: a concatenation takes its argument
    /// words off the stack and pushes the string (or hands float pieces to
    /// the host); a lambda factory makes an object of the interface with the
    /// captured words as its fields; any other is refused.
    pub fn run(&self, thread: &mut Thread) -> (r: Result<Step, Error>)
        requires
            old(thread).wf(),
        ensures
            final(thread).wf(),
            run_site_effect(*old(thread), *final(thread), r, *self),
    {
        match self {
            BootstrapRunner::MakeConcatWithConsts { template, parameters, parameter_size } => {
                thread.concat_site(template, parameters, *parameter_size)
            },
            BootstrapRunner::LambdaMetaFactory { captures_length, lambda_interface } => {
                thread.fields_site(lambda_interface, *captures_length)
            },
            BootstrapRunner::Todo { .. } => Err(Error::Misc(Fault::Unsupported)),
        }
    }
}

/// Allocates a multi-dimensional array of the array type `arr_type`:
/// `depth` holds the sizes, the outermost first; each inner array is
/// counted once by the array holding it. No sizes, or a type that is not an
/// array where one more dimension is asked for, is refused.
#[verifier::loop_isolation(false)]
pub fn allocate_multi_array(heap: &mut Heap, depth: &[u32], arr_type: FieldType) -> (r: Result<u32, Fault>)
    requires
        old(heap).wf(),
    ensures
        final(heap).wf(),
        match multi_alloc(old(heap)@, depth@, arr_type@) {
            Ok((h, p)) => r == Ok::<u32, Fault>(p) && final(heap)@ == h,
            Err(f) => r == Err::<u32, Fault>(f),
        },
    decreases depth@.len(),
{
    let ghost t = arr_type@;
    if depth.len() == 0 {
        return Err(Fault::BadArrayShape);
    }
    let size = depth[0];
    let inner = match arr_type {
        FieldType::Array(inner) => inner,
        _ => {
            return Err(Fault::BadArrayShape);
        },
    };
    assert(t == FieldTypeView::Array(Box::new((*inner)@)));
    if depth.len() == 1 {
        let elem = *inner;
        let obj = if elem.get_size() == 2 {
            Array2::new(size as usize, elem)
        } else {
            Array1::new(size as usize, elem)
        };
        assert(obj@.fields =~= Seq::<u32>::empty());
        assert(obj@ == zero_array((*inner)@, size as nat));
        return Ok(heap.allocate(obj));
    }
    let rest = slice_from(depth, 1);
    let ghost h0 = heap@;
    let mut current: Vec<u32> = Vec::new();
    let mut i: u32 = 0;
    while i < size
        invariant
            heap.wf(),
            rest@.len() < depth@.len(),
            rest@ == depth@.subrange(1, depth@.len() as int),
            i <= size,
            multi_fill(h0, rest@, (*inner)@, i as nat) == Ok::<(HeapView, Seq<u32>), Fault>((heap@, current@)),
        decreases size - i,
    {
        let ghost hi = heap@;
        let idx = match allocate_multi_array(heap, rest.as_slice(), (*inner).copy()) {
            Ok(p) => p,
            Err(f) => {
                proof {
                    assert(multi_fill(h0, rest@, (*inner)@, (i + 1) as nat) == Err::<(HeapView, Seq<u32>), Fault>(f));
                    lemma_fill_fails(h0, rest@, (*inner)@, (i + 1) as nat, size as nat);
                }
                return Err(f);
            },
        };
        let ghost hp = heap@;
        match heap.inc_ref(idx) {
            Ok(()) => {},
            Err(f) => {
                proof {
                    assert(multi_alloc(hi, rest@, (*inner)@) == Ok::<(HeapView, u32), Fault>((hp, idx)));
                    assert(multi_fill(h0, rest@, (*inner)@, (i + 1) as nat) == Err::<(HeapView, Seq<u32>), Fault>(f));
                    lemma_fill_fails(h0, rest@, (*inner)@, (i + 1) as nat, size as nat);
                }
                return Err(f);
            },
        }
        current.push(idx);
        i = i + 1;
    }
    let ghost items = current@;
    let obj = Array1::from_vec(current, *inner);
    assert(obj@.fields =~= Seq::<u32>::empty());
    assert(obj@ == array_object((*inner)@, NativeFieldView::Words(items)));
    Ok(heap.allocate(obj))
}

/// The items of `s` in the opposite order.
fn reversed(s: &Vec<u32>) -> (r: Vec<u32>)
    ensures
        r@ == s@.reverse(),
{
    let mut r: Vec<u32> = Vec::new();
    let mut i: usize = s.len();
    while i > 0
        invariant
            i <= s@.len(),
            r@ == s@.subrange(i as int, s@.len() as int).reverse(),
        decreases i,
    {
        i = i - 1;
        r.push(s[i]);
        assert(r@ =~= s@.subrange(i as int, s@.len() as int).reverse());
    }
    assert(s@.subrange(0, s@.len() as int) =~= s@);
    r
}

/// The items of `s` from `k` on.
fn slice_from(s: &[u32], k: usize) -> (r: Vec<u32>)
    requires
        k <= s@.len(),
    ensures
        r@ == s@.subrange(k as int, s@.len() as int),
{
    let mut r: Vec<u32> = Vec::new();
    let mut i: usize = k;
    while i < s.len()
        invariant
            k <= i <= s@.len(),
            r@ == s@.subrange(k as int, i as int),
        decreases s@.len() - i,
    {
        r.push(s[i]);
        i = i + 1;
        assert(r@ =~= s@.subrange(k as int, i as int));
    }
    r
}

impl Thread {
    /// `multianewarray` with `dimensions` sizes on the stack (the outermost
    /// deepest): allocates the array (see `allocate_multi_array`) and pushes
    /// its reference, counted once.
    pub fn new_multi_array(&mut self, dimensions: u8, arr_type: &FieldType) -> (r: Result<(), Fault>)
        requires
            old(self).wf(),
        ensures
            final(self).wf(),
            new_multi_array_effect(*old(self), *final(self), r, dimensions, arr_type@),
    {
        let sizes = match self.pop_words(dimensions as usize) {
            Ok(s) => s,
            Err(f) => {
                return Err(f);
            },
        };
        let outermost_first = reversed(&sizes);
        proof {
            let st = old(self).stackframe@.stack;
            let n = dimensions as int;
            assert(outermost_first@ =~= st.subrange(st.len() - n, st.len() as int));
        }
        let ptr = match allocate_multi_array(&mut self.heap, outermost_first.as_slice(), arr_type.copy()) {
            Ok(p) => p,
            Err(f) => {
                return Err(f);
            },
        };
        self.stackframe.operand_stack.push(ptr);
        self.heap.inc_ref(ptr)
    }
}

/// The name `<clinit>`.
pub(crate) fn clinit_chars() -> (r: Vec<char>)
    ensures
        r@ == crate::thread::clinit_name(),
{
    let r = vec!['<', 'c', 'l', 'i', 'n', 'i', 't', '>'];
    assert(r@ =~= crate::thread::clinit_name());
    r
}

impl LambdaOverride {
    /// Runs the method of a lambda object (the running frame's, with the
    /// object in local 0): at the first step it calls the target static
    /// method with the captured words then the parameters, with 1 as the
    /// return address; when that returns (at program counter 1) it returns
    /// the target's result. Only static targets are run.
    pub fn run(&self, thread: &mut Thread) -> (r: Result<(), Error>)
        requires
            old(thread).wf(),
        ensures
            final(thread).wf(),
            lambda_run_effect(*old(thread), *final(thread), r, self@),
    {
        let (class, name, method_type) = match &self.invoke {
            MethodHandle::InvokeStatic { class, name, method_type } => (class, name, method_type),
            _ => {
                return Err(Error::Misc(Fault::Unsupported));
            },
        };
        if thread.pc_register == 0 {
            let (c, m) = match thread.method_area.search(class.as_slice(), name.as_slice(), method_type) {
                Some(v) => v,
                None => {
                    return Err(Error::Misc(Fault::MethodNotFound));
                },
            };
            let ci = match thread.class_area.position(c.this.as_slice()) {
                Some(ci) => ci,
                None => {
                    return Err(Error::class_resolution(&c.this));
                },
            };
            proof {
                thread.class_area.lemma_wf();
            }
            if !thread.class_area.is_initialized(ci) {
                let init = clinit_chars();
                let none = MethodDescriptor { parameter_size: 0, parameters: Vec::new(), return_type: None };
                assert(crate::class::field_types_view(none.parameters@) =~= Seq::<FieldTypeView>::empty());
                assert(none@ == crate::thread::clinit_descriptor());
                if thread.method_area.search(c.this.as_slice(), init.as_slice(), &none).is_some() {
                    return Err(Error::Misc(Fault::Overflow));
                }
                thread.class_area.set_initialized(ci);
            }
            let mut combined: Vec<u32> = Vec::new();
            let mut i: usize = 0;
            while i < self.captures.len()
                invariant
                    i <= self.captures@.len(),
                    combined@ == self.captures@.subrange(0, i as int),
                decreases self.captures@.len() - i,
            {
                combined.push(self.captures[i]);
                i = i + 1;
                assert(combined@ =~= self.captures@.subrange(0, i as int));
            }
            assert(self.captures@.subrange(0, i as int) =~= self.captures@);
            let mut k: usize = 1;
            let n = self.method_descriptor.parameter_size;
            let ghost locals = thread.stackframe@.locals;
            while k < thread.stackframe.locals.len() && k <= n
                invariant
                    k >= 1,
                    locals == thread.stackframe@.locals,
                    k <= locals.len() || k == 1,
                    k <= n + 1,
                    combined@ == self.captures@ + (if k == 1 { Seq::<u32>::empty() } else { locals.subrange(1, k as int) }),
                decreases thread.stackframe.locals@.len() - k,
            {
                combined.push(thread.stackframe.locals[k]);
                k = k + 1;
                assert(combined@ =~= self.captures@ + locals.subrange(1, k as int));
            }
            assert(combined@ =~= self.captures@ + lambda_args(locals, n as nat));
            thread.stackframe.operand_stack.push(1);
            thread.invoke_method(m, c);
            thread.stackframe.locals = combined;
            Ok(())
        } else if thread.pc_register == 1 {
            match &self.method_descriptor.return_type {
                None => thread.return_void(),
                Some(t) => {
                    let res = if t.get_size() == 1 {
                        thread.return_one()
                    } else {
                        thread.return_two()
                    };
                    match res {
                        Ok(()) => Ok(()),
                        Err(f) => Err(Error::Misc(f)),
                    }
                },
            }
        } else {
            Err(Error::Misc(Fault::PcOutOfRange))
        }
    }
}


/// `t1` is `t0` with its top `n` operand words taken off.
pub open spec fn popped_state(t0: Thread, t1: Thread, n: nat) -> bool {
    let st = t0.stackframe@.stack;
    &&& n <= st.len()
    &&& t1.stackframe@ == with_stack(t0.stackframe@, st.subrange(0, st.len() - n))
    &&& t1.heap == t0.heap
    &&& t1.class_area == t0.class_area
    &&& t1.method_area == t0.method_area
    &&& t1.pc_register == t0.pc_register
    &&& t1.stack == t0.stack
}

/// What finishing a concatenation of the pieces `ps` does to a thread: the
/// string is pushed when every piece is text, else the pieces go to the host
/// (see `Thread::finish_concat`).
pub open spec fn finish_concat_effect(t0: Thread, t1: Thread, r: Result<Step, Error>, ps: Seq<ConcatPieceView>) -> bool {
    if exists|i: int| 0 <= i < ps.len() && is_float_piece(#[trigger] ps[i]) {
        (r matches Ok(Step::Concat(v)) && pieces_view(v@) == ps) && same_thread(&t1, &t0)
    } else {
        &&& misc_only(r)
        &&& r is Ok ==> r == Ok::<Step, Error>(Step::Done)
        &&& push_string_effect(t0, t1, fault_of(r), joined(ps))
    }
}

/// The template text of a constant: a string, or a reference to one.
pub open spec fn template_of(c: ConstantView) -> Option<Seq<char>> {
    match c {
        ConstantView::String(s) => Some(s),
        ConstantView::StringRef(s) => Some(s),
        _ => None,
    }
}

/// What concatenating the top `n` words of the stack, the arguments of the
/// types `params`, by `template` does to a thread: the words are taken off,
/// then the pieces are finished (see `finish_concat_effect`).
pub open spec fn concat_effect(
    t0: Thread,
    t1: Thread,
    r: Result<Step, Error>,
    template: Seq<char>,
    params: Seq<FieldTypeView>,
    n: nat,
) -> bool {
    let st = t0.stackframe@.stack;
    if n > st.len() {
        (r matches Err(Error::Misc(f)) && f == Fault::StackUnderflow) && same_thread(&t1, &t0)
    } else {
        let words = st.subrange(st.len() - n, st.len() as int).reverse();
        match spec_concat(t0.heap@, template, 0, params, 0, words) {
            Err(f) => (r matches Err(Error::Misc(g)) && g == f) && popped_state(t0, t1, n),
            Ok(ps) => exists|tp: Thread| #[trigger] popped_state(t0, tp, n) && finish_concat_effect(tp, t1, r, ps),
        }
    }
}

/// What putting a new object `o`, made of the top `n` words of the stack,
/// on the heap and pushing its reference, counted once, does to a thread.
pub open spec fn push_made_effect(t0: Thread, t1: Thread, r: Result<Step, Error>, o: ObjectView, n: nat) -> bool {
    let st = t0.stackframe@.stack;
    if n > st.len() {
        (r matches Err(Error::Misc(f)) && f == Fault::StackUnderflow) && same_thread(&t1, &t0)
    } else {
        let rest = st.subrange(0, st.len() - n);
        let ptr = ((t0.heap@.contents.len() + crate::data::HEAP_START) % 0x1_0000_0000) as u32;
        let h = HeapView {
            contents: t0.heap@.contents.push(Some(o)),
            refcounts: t0.heap@.refcounts.push(0),
            strings: t0.heap@.strings,
            class_objects: t0.heap@.class_objects,
        };
        &&& t1.pc_register == t0.pc_register
        &&& frames_view(t1.stack@) == frames_view(t0.stack@)
        &&& t1.class_area@ == t0.class_area@
        &&& t1.method_area@ == t0.method_area@
        &&& match spec_inc_ref(h, ptr) {
            Ok(h2) => r == Ok::<Step, Error>(Step::Done) && t1.heap@ == h2 && t1.stackframe@ == with_stack(
                t0.stackframe@,
                rest.push(ptr),
            ),
            Err(f) => (r matches Err(Error::Misc(g)) && g == f) && t1.heap@ == h && t1.stackframe@ == with_stack(
                t0.stackframe@,
                rest,
            ),
        }
    }
}

/// The lambda object that a `LambdaMetafactory.metafactory` call site of
/// the interface method `name` makes: of the class `class`, with the
/// interface method's descriptor `d`, the method handle `h` to call, and
/// the captured words `captures`.
pub open spec fn lambda_object(
    class: Seq<char>,
    name: Seq<char>,
    d: MethodDescriptorView,
    h: MethodHandleView,
    captures: Seq<u32>,
) -> ObjectView {
    ObjectView {
        fields: seq![],
        native_fields: seq![
            NativeFieldView::Lambda(
                LambdaOverrideView { method_name: name, method_descriptor: d, invoke: h, captures },
            ),
        ],
        class,
    }
}

/// What `invokedynamic` with the bootstrap method number `index` of the
/// running class, for the method `name` with the descriptor `desc`, does to
/// a thread (see `Thread::invoke_dynamic`).
pub open spec fn invoke_dynamic_effect(
    t0: Thread,
    t1: Thread,
    r: Result<Step, Error>,
    index: u16,
    name: Seq<char>,
    desc: MethodDescriptorView,
) -> bool {
    let bms = t0.stackframe@.class.bootstrap_methods;
    let st = t0.stackframe@.stack;
    let n = desc.parameter_size;
    let refused = (r matches Err(Error::Misc(f)) && f == Fault::Unsupported) && same_thread(&t1, &t0);
    if index >= bms.len() {
        refused
    } else {
        let bm = bms[index as int];
        match bm.method {
            MethodHandleView::InvokeStatic { class: bc, name: bn, .. } => if name == make_concat() && bc
                == concat_factory() && bn == make_concat() && desc.return_type == Some(
                FieldTypeView::Object(string_name()),
            ) {
                if bm.args.len() != 1 {
                    refused
                } else {
                    match template_of(bm.args[0]) {
                        None => refused,
                        Some(template) => concat_effect(t0, t1, r, template, desc.parameters, n),
                    }
                }
            } else if bn == metafactory() && bc == lambda_factory() {
                match desc.return_type {
                    Some(FieldTypeView::Object(o)) => if bm.args.len() != 3 {
                        refused
                    } else {
                        match (bm.args[0], bm.args[1], bm.args[2]) {
                            (ConstantView::MethodType(d), ConstantView::MethodHandle(h), ConstantView::MethodType(_)) => {
                                let captures = st.subrange(st.len() - n, st.len() as int);
                                push_made_effect(t0, t1, r, lambda_object(o, name, d, h, captures), n)
                            },
                            _ => refused,
                        }
                    },
                    _ => refused,
                }
            } else {
                refused
            },
            _ => refused,
        }
    }
}

/// What running a call site does to a thread (see `BootstrapRunner::run`).
pub open spec fn run_site_effect(t0: Thread, t1: Thread, r: Result<Step, Error>, b: BootstrapRunner) -> bool {
    match b {
        BootstrapRunner::MakeConcatWithConsts { template, parameters, parameter_size } => concat_effect(
            t0,
            t1,
            r,
            template@,
            crate::class::field_types_view(parameters@),
            parameter_size as nat,
        ),
        BootstrapRunner::LambdaMetaFactory { captures_length, lambda_interface } => {
            let st = t0.stackframe@.stack;
            let o = ObjectView {
                fields: st.subrange(st.len() - captures_length, st.len() as int),
                native_fields: seq![],
                class: lambda_interface@,
            };
            push_made_effect(t0, t1, r, o, captures_length as nat)
        },
        BootstrapRunner::Todo { .. } => (r matches Err(Error::Misc(f)) && f == Fault::Unsupported) && same_thread(
            &t1,
            &t0,
        ),
    }
}


/// An array object of the element type `t` with the elements `elements`.
pub open spec fn array_object(t: FieldTypeView, elements: NativeFieldView) -> ObjectView {
    ObjectView {
        fields: seq![],
        native_fields: seq![NativeFieldView::ArrayType(t), elements],
        class: crate::object::array_name(),
    }
}

/// A new array of `count` zero elements of type `t`, two words each for a
/// two-word type.
pub open spec fn zero_array(t: FieldTypeView, count: nat) -> ObjectView {
    array_object(
        t,
        if t.size() == 2 {
            NativeFieldView::Longs(Seq::new(count, |i: int| 0u64))
        } else {
            NativeFieldView::Words(Seq::new(count, |i: int| 0u32))
        },
    )
}

/// The heap after putting `o` on it uncounted, and its reference.
pub open spec fn heap_with(h: HeapView, o: ObjectView) -> (HeapView, u32) {
    (
        HeapView {
            contents: h.contents.push(Some(o)),
            refcounts: h.refcounts.push(0),
            strings: h.strings,
            class_objects: h.class_objects,
        },
        ((h.contents.len() + crate::data::HEAP_START) % 0x1_0000_0000) as u32,
    )
}

/// The heap after allocating a multi-dimensional array of the array type
/// `t` with the sizes `depth` (outermost first), and its reference: the
/// innermost arrays hold zeros of their element type; each other array
/// holds its inner arrays, made one after the other and each counted once.
/// An array's element type is `t` with one dimension fewer.
pub open spec fn multi_alloc(h: HeapView, depth: Seq<u32>, t: FieldTypeView) -> Result<(HeapView, u32), Fault>
    decreases depth.len(), 1nat, 0nat,
{
    if depth.len() == 0 {
        Err(Fault::BadArrayShape)
    } else if depth.len() == 1 {
        match t {
            FieldTypeView::Array(inner) => Ok(heap_with(h, zero_array(*inner, depth[0] as nat))),
            _ => Err(Fault::BadArrayShape),
        }
    } else {
        match t {
            FieldTypeView::Array(inner) => match multi_fill(h, depth.subrange(1, depth.len() as int), *inner, depth[0] as nat) {
                Ok((h1, items)) => Ok(heap_with(h1, array_object(*inner, NativeFieldView::Words(items)))),
                Err(f) => Err(f),
            },
            _ => Err(Fault::BadArrayShape),
        }
    }
}

/// The heap after making `n` arrays with the sizes `rest` and the element
/// type `t`, each counted once, and their references in order.
pub open spec fn multi_fill(h: HeapView, rest: Seq<u32>, t: FieldTypeView, n: nat) -> Result<(HeapView, Seq<u32>), Fault>
    decreases rest.len() + 1, 0nat, n,
{
    if n == 0 {
        Ok((h, seq![]))
    } else {
        match multi_fill(h, rest, t, (n - 1) as nat) {
            Err(f) => Err(f),
            Ok((h1, items)) => match multi_alloc(h1, rest, t) {
                Err(f) => Err(f),
                Ok((h2, p)) => match spec_inc_ref(h2, p) {
                    Err(f) => Err(f),
                    Ok(h3) => Ok((h3, items.push(p))),
                },
            },
        }
    }
}

/// Once making the first `k` arrays fails, making more fails the same way.
proof fn lemma_fill_fails(h: HeapView, rest: Seq<u32>, t: FieldTypeView, k: nat, n: nat)
    requires
        k <= n,
        multi_fill(h, rest, t, k) is Err,
    ensures
        multi_fill(h, rest, t, n) == multi_fill(h, rest, t, k),
    decreases n - k,
{
    if k < n {
        lemma_fill_fails(h, rest, t, k, (n - 1) as nat);
    }
}

/// What `multianewarray` with `dims` sizes on the stack does to a thread:
/// the sizes are taken off (the outermost deepest, the innermost on top),
/// the array is made (see `multi_alloc`) and its reference pushed and
/// counted once.
pub open spec fn new_multi_array_effect(t0: Thread, t1: Thread, r: Result<(), Fault>, dims: u8, t: FieldTypeView) -> bool {
    let st = t0.stackframe@.stack;
    let n = dims as nat;
    if n > st.len() {
        r == Err::<(), Fault>(Fault::StackUnderflow) && same_thread(&t1, &t0)
    } else {
        let sizes = st.subrange(st.len() - n, st.len() as int);
        let rest = st.subrange(0, st.len() - n);
        &&& t1.pc_register == t0.pc_register
        &&& frames_view(t1.stack@) == frames_view(t0.stack@)
        &&& t1.class_area@ == t0.class_area@
        &&& t1.method_area@ == t0.method_area@
        &&& match multi_alloc(t0.heap@, sizes, t) {
            Err(f) => r == Err::<(), Fault>(f) && t1.stackframe@ == with_stack(t0.stackframe@, rest),
            Ok((h, p)) => t1.stackframe@ == with_stack(t0.stackframe@, rest.push(p)) && match spec_inc_ref(h, p) {
                Ok(h2) => r is Ok && t1.heap@ == h2,
                Err(f) => r == Err::<(), Fault>(f) && t1.heap@ == h,
            },
        }
    }
}


/// The parameter words that a lambda passes on from its frame's locals:
/// those after local 0 (the lambda object), at most `n` of them.
pub open spec fn lambda_args(locals: Seq<u32>, n: nat) -> Seq<u32> {
    if locals.len() <= 1 {
        seq![]
    } else if locals.len() < n + 1 {
        locals.subrange(1, locals.len() as int)
    } else {
        locals.subrange(1, (n + 1) as int)
    }
}

/// What running the method of the lambda `l` does to a thread (see
/// `LambdaOverride::run`).
pub open spec fn lambda_run_effect(t0: Thread, t1: Thread, r: Result<(), Error>, l: LambdaOverrideView) -> bool {
    match l.invoke {
        MethodHandleView::InvokeStatic { class, name, method_type } => if t0.pc_register == 0 {
            match lookup_entry(t0.method_area@, (class, name, method_type)) {
                None => (r matches Err(Error::Misc(f)) && f == Fault::MethodNotFound) && same_thread(&t1, &t0),
                Some((c, m)) => {
                    let ci = class_position(t0.class_area@.classes, c.this);
                    let ready = t0.class_area@.states[ci].initialized;
                    if ci < 0 {
                        (r matches Err(e) && e@ == ErrorView::ClassResolution(c.this)) && same_thread(&t1, &t0)
                    } else if !ready && lookup_entry(
                        t0.method_area@,
                        (c.this, crate::thread::clinit_name(), crate::thread::clinit_descriptor()),
                    ) is Some {
                        (r matches Err(Error::Misc(f)) && f == Fault::Overflow) && same_thread(&t1, &t0)
                    } else {
                        &&& r is Ok
                        &&& t1.pc_register == 0
                        &&& frames_view(t1.stack@) == frames_view(t0.stack@).push(
                            with_stack(t0.stackframe@, t0.stackframe@.stack.push(1)),
                        )
                        &&& t1.stackframe@ == (StackFrameView {
                            locals: l.captures + lambda_args(
                                t0.stackframe@.locals,
                                l.method_descriptor.parameter_size,
                            ),
                            ..fresh_frame(m, c)
                        })
                        &&& t1.heap@ == t0.heap@
                        &&& t1.method_area@ == t0.method_area@
                        &&& t1.class_area@.classes == t0.class_area@.classes
                        &&& t1.class_area@.states == if ready {
                            t0.class_area@.states
                        } else {
                            t0.class_area@.states.update(
                                ci,
                                crate::data::ClassStateView { initialized: true, ..t0.class_area@.states[ci] },
                            )
                        }
                    }
                },
            }
        } else if t0.pc_register == 1 {
            match l.method_descriptor.return_type {
                None => return_void_effect(t0, t1, r),
                Some(t) => misc_only(r) && if t.size() == 1 {
                    return_one_effect(t0, t1, fault_of(r))
                } else {
                    return_two_effect(t0, t1, fault_of(r))
                },
            }
        } else {
            (r matches Err(Error::Misc(f)) && f == Fault::PcOutOfRange) && same_thread(&t1, &t0)
        },
        _ => (r matches Err(Error::Misc(f)) && f == Fault::Unsupported) && same_thread(&t1, &t0),
    }
}

} // verus!
