//! Preparing a method's code for running: decoding every instruction, turning
//! byte offsets into instruction indices, and resolving field positions.
use vstd::prelude::*;

use crate::attribute::{
    attribute_name, attributes_view, class_index, get_attributes, single_attribute, spec_attribute_name,
    spec_attributes, spec_class, spec_single_attribute, AttributeName, AttributeView,
};
use crate::class::{constants_view, Constant, ConstantView, FieldType, FieldTypeView};
use crate::class_loader::{be16, be32, get_u16, get_u32, lemma_repeat_err, spec_repeat, LoadError};
use crate::code::{
    exception_table_view, frames_view, instructions_view, local_item, local_type_item, local_types_view,
    locals_view, parse_line_table, parse_local_table, parse_local_type_table, parse_stack_map,
    spec_line_table, spec_stack_map, spec_table, ByteCode, ByteCodeView, ExceptionTableEntry,
    ExceptionTableEntryView, LineTableEntry, LocalVarEntry, LocalVarEntryView, LocalVarTypeEntry,
    LocalVarTypeEntryView, StackMapFrame, StackMapFrameView,
};
use crate::attribute::Attribute;
use crate::class_loader::get_bytes;
use crate::data::{class_position, find_key, lemma_find_key, SharedClassArea, SharedClassAreaView};
use crate::instruction::{parse_instruction, spec_decode, Instruction, InstructionView};
use crate::raw_class::FieldView;
use crate::text::chars_eq;

verus! {

/// Decoding an instruction moves forward, and not past the end.
pub proof fn lemma_decode_advances(cs: Seq<ConstantView>, code: Seq<u8>, p: int)
    ensures
        spec_decode(cs, code, p) matches Ok((_, q)) ==> p < q <= code.len(),
{
}

/// Every instruction of `code` from byte `p` on, each with its byte offset.
pub open spec fn spec_decode_all(cs: Seq<ConstantView>, code: Seq<u8>, p: int) -> Result<
    Seq<(usize, InstructionView)>,
    LoadError,
>
    decreases code.len() - p,
{
    if p < 0 || p >= code.len() {
        Ok(seq![])
    } else {
        match spec_decode(cs, code, p) {
            Ok((i, q)) => {
                proof {
                    lemma_decode_advances(cs, code, p);
                }
                match spec_decode_all(cs, code, q) {
                    Ok(rest) => Ok(seq![(p as usize, i)] + rest),
                    Err(e) => Err(e),
                }
            },
            Err(e) => Err(e),
        }
    }
}

/// The view of decoded instructions with their offsets.
pub open spec fn decoded_view(s: Seq<(usize, Instruction)>) -> Seq<(usize, InstructionView)> {
    s.map_values(|d: (usize, Instruction)| (d.0, d.1@))
}

/// Decodes every instruction of `code`, each with its byte offset.
pub fn decode_all(constants: &[Constant], code: &[u8]) -> (r: Result<
    Vec<(usize, Instruction)>,
    LoadError,
>)
    ensures
        match spec_decode_all(constants_view(constants@), code@, 0) {
            Ok(d) => r matches Ok(v) && decoded_view(v@) == d,
            Err(e) => r matches Err(e2) && e2 == e,
        },
{
    let ghost cs = constants_view(constants@);
    let mut out: Vec<(usize, Instruction)> = Vec::new();
    let mut pos: usize = 0;
    while pos < code.len()
        invariant
            cs == constants_view(constants@),
            pos <= code@.len(),
            spec_decode_all(cs, code@, 0) == match spec_decode_all(cs, code@, pos as int) {
                Ok(rest) => Ok(decoded_view(out@) + rest),
                Err(e) => Err(e),
            },
        decreases code@.len() - pos,
    {
        let p0 = pos;
        proof {
            lemma_decode_advances(cs, code@, p0 as int);
        }
        match parse_instruction(constants, code, &mut pos) {
            Ok(i) => {
                let ghost before = out@;
                out.push((p0, i));
                proof {
                    assert(decoded_view(out@) =~= decoded_view(before) + seq![(p0, i@)]);
                    match spec_decode_all(cs, code@, pos as int) {
                        Ok(rest) => {
                            assert(decoded_view(before) + (seq![(p0, i@)] + rest) =~= decoded_view(
                                out@,
                            ) + rest);
                        },
                        Err(e) => {},
                    }
                }
            },
            Err(e) => {
                return Err(e);
            },
        }
    }
    assert(decoded_view(out@) + seq![] =~= decoded_view(out@));
    Ok(out)
}

/// Applies `f` to each item in order, stopping at the first error.
pub open spec fn traverse<A, B>(s: Seq<A>, f: spec_fn(A) -> Result<B, LoadError>) -> Result<
    Seq<B>,
    LoadError,
>
    decreases s.len(),
{
    if s.len() == 0 {
        Ok(seq![])
    } else {
        match traverse(s.drop_last(), f) {
            Ok(done) => match f(s.last()) {
                Ok(b) => Ok(done.push(b)),
                Err(e) => Err(e),
            },
            Err(e) => Err(e),
        }
    }
}

/// The byte offsets of decoded instructions.
pub open spec fn offsets_of(d: Seq<(usize, InstructionView)>) -> Seq<usize> {
    d.map_values(|x: (usize, InstructionView)| x.0)
}

/// The index of the instruction that starts at byte `t`, or -1 (always for a
/// negative `t`).
pub open spec fn jump_index(offsets: Seq<usize>, t: int) -> int {
    if t < 0 || t > usize::MAX {
        -1
    } else {
        find_key(offsets, t as usize)
    }
}

/// The index of the instruction that starts at byte `pc`, if one does.
pub fn translate_pc(offsets: &Vec<usize>, pc: usize) -> (r: Option<usize>)
    ensures
        match r {
            Some(i) => find_key(offsets@, pc) == i && i < offsets@.len(),
            None => find_key(offsets@, pc) == -1,
        },
{
    proof {
        lemma_find_key(offsets@, pc);
    }
    let mut i: usize = 0;
    while i < offsets.len()
        invariant
            i <= offsets@.len(),
            forall|j: int| 0 <= j < i ==> offsets@[j] != pc,
            -1 <= find_key(offsets@, pc) < offsets@.len(),
            find_key(offsets@, pc) >= 0 ==> offsets@[find_key(offsets@, pc)] == pc && forall|j: int|
                0 <= j < find_key(offsets@, pc) ==> offsets@[j] != pc,
            find_key(offsets@, pc) == -1 ==> forall|j: int|
                0 <= j < offsets@.len() ==> offsets@[j] != pc,
        decreases offsets@.len() - i,
    {
        if offsets[i] == pc {
            return Some(i);
        }
        i = i + 1;
    }
    None
}

/// An exception-table entry with its positions turned from byte offsets into
/// instruction indices, for code of `code_len` bytes. The end is exclusive:
/// an end at the code's length becomes the number of instructions.
pub open spec fn spec_translate_entry(offsets: Seq<usize>, code_len: nat, e: ExceptionTableEntryView) -> Result<
    ExceptionTableEntryView,
    LoadError,
> {
    let end = if e.end_pc as nat == code_len {
        offsets.len() as int
    } else {
        find_key(offsets, e.end_pc as usize)
    };
    let start = find_key(offsets, e.start_pc as usize);
    let handler = find_key(offsets, e.handler_pc as usize);
    if end < 0 || start < 0 || handler < 0 {
        Err(LoadError::BadCodeOffset)
    } else {
        Ok(
            ExceptionTableEntryView {
                start_pc: start as u16,
                end_pc: end as u16,
                handler_pc: handler as u16,
                catch_type: e.catch_type,
            },
        )
    }
}

/// `spec_translate_entry` for the offsets `offsets` and the code length
/// `code_len`.
pub open spec fn translate_entry_with(offsets: Seq<usize>, code_len: nat) -> spec_fn(ExceptionTableEntryView) -> Result<
    ExceptionTableEntryView,
    LoadError,
> {
    |e: ExceptionTableEntryView| spec_translate_entry(offsets, code_len, e)
}

/// Turns the positions of an exception table from byte offsets into
/// instruction indices; on an error the table is left as it was.
pub fn translate_table(offsets: &Vec<usize>, code_len: usize, table: &mut Vec<ExceptionTableEntry>) -> (r: Result<
    (),
    LoadError,
>)
    ensures
        match traverse(exception_table_view(old(table)@), translate_entry_with(offsets@, code_len as nat)) {
            Ok(t) => r is Ok && exception_table_view(final(table)@) == t,
            Err(e) => r matches Err(e2) && e2 == e && final(table)@ == old(table)@,
        },
{
    let ghost f = translate_entry_with(offsets@, code_len as nat);
    let ghost tv = exception_table_view(table@);
    let mut positions: Vec<(u16, u16, u16)> = Vec::new();
    let ghost mut done: Seq<ExceptionTableEntryView> = seq![];
    let mut i: usize = 0;
    assert(tv.subrange(0, 0) =~= Seq::<ExceptionTableEntryView>::empty());
    while i < table.len()
        invariant
            f == translate_entry_with(offsets@, code_len as nat),
            tv == exception_table_view(table@),
            i <= table@.len(),
            positions@.len() == i,
            done.len() == i,
            traverse(tv.subrange(0, i as int), f) == Ok::<_, LoadError>(done),
            forall|j: int|
                0 <= j < i ==> #[trigger] done[j] == (ExceptionTableEntryView {
                    start_pc: positions@[j].0,
                    end_pc: positions@[j].1,
                    handler_pc: positions@[j].2,
                    catch_type: tv[j].catch_type,
                }),
        decreases table@.len() - i,
    {
        let e = &table[i];
        let end = if e.end_pc as usize == code_len {
            Some(offsets.len())
        } else {
            translate_pc(offsets, e.end_pc as usize)
        };
        let start = translate_pc(offsets, e.start_pc as usize);
        let handler = translate_pc(offsets, e.handler_pc as usize);
        proof {
            assert(tv.subrange(0, i + 1).drop_last() =~= tv.subrange(0, i as int));
            assert(tv.subrange(0, i + 1).last() == tv[i as int]);
            assert(tv[i as int] == table@[i as int]@);
        }
        match (end, start, handler) {
            (Some(end), Some(start), Some(handler)) => {
                #[verifier::truncate]
                let s16 = start as u16;
                #[verifier::truncate]
                let e16 = end as u16;
                #[verifier::truncate]
                let h16 = handler as u16;
                positions.push((s16, e16, h16));
                proof {
                    done = done.push(spec_translate_entry(offsets@, code_len as nat, tv[i as int])->Ok_0);
                }
            },
            _ => {
                proof {
                    lemma_traverse_err(tv, f, (i + 1) as nat);
                    assert(tv.subrange(0, tv.len() as int) =~= tv);
                }
                return Err(LoadError::BadCodeOffset);
            },
        }
        i = i + 1;
    }
    assert(tv.subrange(0, tv.len() as int) =~= tv);
    let mut old_entries: Vec<ExceptionTableEntry> = Vec::new();
    std::mem::swap(table, &mut old_entries);
    let ghost olds = old_entries@;
    let mut k: usize = 0;
    let n = old_entries.len();
    while k < n
        invariant
            n == olds.len(),
            n == positions@.len(),
            tv == exception_table_view(olds),
            k <= n,
            old_entries@ == olds.subrange(k as int, n as int),
            table@.len() == k,
            forall|j: int|
                0 <= j < k ==> (#[trigger] table@[j])@ == (ExceptionTableEntryView {
                    start_pc: positions@[j].0,
                    end_pc: positions@[j].1,
                    handler_pc: positions@[j].2,
                    catch_type: tv[j].catch_type,
                }),
        decreases n - k,
    {
        let e = old_entries.remove(0);
        assert(e == olds[k as int]);
        let (start, end, handler) = positions[k];
        table.push(
            ExceptionTableEntry { start_pc: start, end_pc: end, handler_pc: handler, catch_type: e.catch_type },
        );
        proof {
            assert(old_entries@ =~= olds.subrange(k + 1, n as int));
        }
        k = k + 1;
    }
    assert(exception_table_view(table@) =~= done);
    Ok(())
}

/// Once `traverse` fails on a prefix, it fails the same way on the whole.
pub proof fn lemma_traverse_err<A, B>(s: Seq<A>, f: spec_fn(A) -> Result<B, LoadError>, i: nat)
    requires
        i <= s.len(),
        traverse(s.subrange(0, i as int), f) is Err,
    ensures
        traverse(s, f) == traverse(s.subrange(0, i as int), f),
    decreases s.len() - i,
{
    if i < s.len() {
        let t = s.subrange(0, i + 1 as int);
        assert(t.drop_last() =~= s.subrange(0, i as int));
        lemma_traverse_err(s, f, i + 1);
    } else {
        assert(s.subrange(0, i as int) =~= s);
    }
}

/// The name and type of each field of a list.
pub open spec fn field_keys(fields: Seq<(FieldView, usize)>) -> Seq<(Seq<char>, FieldTypeView)> {
    fields.map_values(|f: (FieldView, usize)| (f.0.name, f.0.descriptor))
}

/// Where the field `field` of type `ty` lies among the words of an instance
/// of class `class`.
pub open spec fn spec_concrete_field(
    area: SharedClassAreaView,
    class: Seq<char>,
    field: Seq<char>,
    ty: FieldTypeView,
) -> Result<usize, LoadError> {
    let c = class_position(area.classes, class);
    if c < 0 {
        Err(LoadError::ClassNotFound)
    } else {
        let fields = area.classes[c].fields;
        let k = find_key(field_keys(fields), (field, ty));
        if k < 0 {
            Err(LoadError::FieldNotFound)
        } else {
            Ok(fields[k].1)
        }
    }
}

/// Finds where a field lies among the words of an instance of its class.
pub fn concrete_field(class_area: &SharedClassArea, class: &[char], field: &[char], ty: &FieldType) -> (r: Result<
    usize,
    LoadError,
>)
    ensures
        match spec_concrete_field(class_area@, class@, field@, ty@) {
            Ok(n) => r matches Ok(m) && m == n,
            Err(e) => r matches Err(e2) && e2 == e,
        },
{
    let current = match class_area.search(class) {
        Some(c) => c,
        None => {
            return Err(LoadError::ClassNotFound);
        },
    };
    let ghost fv = current@.fields;
    let ghost keys = field_keys(fv);
    let ghost key = (field@, ty@);
    proof {
        lemma_find_key(keys, key);
    }
    let mut i: usize = 0;
    while i < current.fields.len()
        invariant
            class_position(class_area@.classes, class@) >= 0,
            current@ == class_area@.classes[class_position(class_area@.classes, class@)],
            fv == current@.fields,
            keys == field_keys(fv),
            key == (field@, ty@),
            fv.len() == current.fields@.len(),
            i <= fv.len(),
            forall|j: int| 0 <= j < i ==> keys[j] != key,
            -1 <= find_key(keys, key) < keys.len(),
            find_key(keys, key) >= 0 ==> keys[find_key(keys, key)] == key && forall|j: int|
                0 <= j < find_key(keys, key) ==> keys[j] != key,
            find_key(keys, key) == -1 ==> forall|j: int| 0 <= j < keys.len() ==> keys[j] != key,
        decreases fv.len() - i,
    {
        let (f, at) = &current.fields[i];
        let same = chars_eq(f.name.as_slice(), field) && f.descriptor.same(ty);
        assert(fv[i as int] == (f@, *at));
        assert(keys[i as int] == (f.name@, f.descriptor@));
        if same {
            assert(keys[i as int] == key);
            assert(find_key(keys, key) == i);
            return Ok(*at);
        }
        i = i + 1;
    }
    Err(LoadError::FieldNotFound)
}

/// An instruction at byte offset `d.0`, ready for running: a branch's offset
/// becomes the index of the instruction it lands on, and a field access
/// learns where its field lies.
pub open spec fn spec_relocate(
    area: SharedClassAreaView,
    offsets: Seq<usize>,
    d: (usize, InstructionView),
) -> Result<InstructionView, LoadError> {
    let idx = d.0;
    match d.1 {
        InstructionView::Goto(g) => {
            let j = jump_index(offsets, (idx as i32).wrapping_add(g) as int);
            if j < 0 {
                Err(LoadError::BadCodeOffset)
            } else {
                Ok(InstructionView::Goto(j as i32))
            }
        },
        InstructionView::IfCmpZ(c, g) => {
            let j = jump_index(offsets, (idx as i16).wrapping_add(g) as int);
            if j < 0 {
                Err(LoadError::BadCodeOffset)
            } else {
                Ok(InstructionView::IfCmpZ(c, j as i16))
            }
        },
        InstructionView::IfNull(b, g) => {
            let j = jump_index(offsets, (idx as i16).wrapping_add(g) as int);
            if j < 0 {
                Err(LoadError::BadCodeOffset)
            } else {
                Ok(InstructionView::IfNull(b, j as i16))
            }
        },
        InstructionView::ICmp(c, g) => {
            let j = jump_index(offsets, (idx as i16).wrapping_add(g) as int);
            if j < 0 {
                Err(LoadError::BadCodeOffset)
            } else {
                Ok(InstructionView::ICmp(c, j as i16))
            }
        },
        InstructionView::GetField(None, class, field, ty) => match spec_concrete_field(
            area,
            class,
            field,
            ty,
        ) {
            Ok(n) => Ok(InstructionView::GetField(Some(n), class, field, ty)),
            Err(e) => Err(e),
        },
        InstructionView::PutField(None, class, field, ty) => match spec_concrete_field(
            area,
            class,
            field,
            ty,
        ) {
            Ok(n) => Ok(InstructionView::PutField(Some(n), class, field, ty)),
            Err(e) => Err(e),
        },
        other => Ok(other),
    }
}

/// `spec_relocate` for the class area `area` and the offsets `offsets`.
pub open spec fn relocate_with(area: SharedClassAreaView, offsets: Seq<usize>) -> spec_fn(
    (usize, InstructionView),
) -> Result<InstructionView, LoadError> {
    |d: (usize, InstructionView)| spec_relocate(area, offsets, d)
}

/// The index of the instruction at byte `t`, for a signed `t`.
fn jump(offsets: &Vec<usize>, t: i32) -> (r: Option<usize>)
    ensures
        match r {
            Some(j) => jump_index(offsets@, t as int) == j && j < offsets@.len(),
            None => jump_index(offsets@, t as int) == -1,
        },
{
    if t < 0 {
        None
    } else {
        translate_pc(offsets, t as usize)
    }
}

/// Readies the instruction `instr` found at byte offset `idx`.
pub fn relocate(class_area: &SharedClassArea, offsets: &Vec<usize>, idx: usize, instr: Instruction) -> (r: Result<
    Instruction,
    LoadError,
>)
    ensures
        match spec_relocate(class_area@, offsets@, (idx, instr@)) {
            Ok(i) => r matches Ok(v) && v@ == i,
            Err(e) => r matches Err(e2) && e2 == e,
        },
{
    #[verifier::truncate]
    let idx32 = idx as i32;
    #[verifier::truncate]
    let idx16 = idx as i16;
    match instr {
        Instruction::Goto(g) => match jump(offsets, idx32.wrapping_add(g)) {
            Some(j) => {
                #[verifier::truncate]
                let j32 = j as i32;
                Ok(Instruction::Goto(j32))
            },
            None => Err(LoadError::BadCodeOffset),
        },
        Instruction::IfCmpZ(c, g) => match jump(offsets, idx16.wrapping_add(g) as i32) {
            Some(j) => {
                #[verifier::truncate]
                let j16 = j as i16;
                Ok(Instruction::IfCmpZ(c, j16))
            },
            None => Err(LoadError::BadCodeOffset),
        },
        Instruction::IfNull(b, g) => match jump(offsets, idx16.wrapping_add(g) as i32) {
            Some(j) => {
                #[verifier::truncate]
                let j16 = j as i16;
                Ok(Instruction::IfNull(b, j16))
            },
            None => Err(LoadError::BadCodeOffset),
        },
        Instruction::ICmp(c, g) => match jump(offsets, idx16.wrapping_add(g) as i32) {
            Some(j) => {
                #[verifier::truncate]
                let j16 = j as i16;
                Ok(Instruction::ICmp(c, j16))
            },
            None => Err(LoadError::BadCodeOffset),
        },
        Instruction::GetField(None, class, field, ty) => match concrete_field(
            class_area,
            class.as_slice(),
            field.as_slice(),
            &ty,
        ) {
            Ok(n) => Ok(Instruction::GetField(Some(n), class, field, ty)),
            Err(e) => Err(e),
        },
        Instruction::PutField(None, class, field, ty) => match concrete_field(
            class_area,
            class.as_slice(),
            field.as_slice(),
            &ty,
        ) {
            Ok(n) => Ok(Instruction::PutField(Some(n), class, field, ty)),
            Err(e) => Err(e),
        },
        other => Ok(other),
    }
}

/// Prepares a method's code for running: decodes its instructions, turns the
/// exception table's byte offsets and every branch's offset into instruction
/// indices, and resolves where each accessed instance field lies. A decoding
/// error or a bad exception-table position leaves the table as it was.
pub fn hydrate_code(
    class_area: &SharedClassArea,
    constants: &[Constant],
    code: &[u8],
    exception_table: &mut Vec<ExceptionTableEntry>,
) -> (r: Result<Vec<Instruction>, LoadError>)
    ensures
        match spec_decode_all(constants_view(constants@), code@, 0) {
            Err(e) => r matches Err(e2) && e2 == e && final(exception_table)@ == old(
                exception_table,
            )@,
            Ok(d) => match traverse(
                exception_table_view(old(exception_table)@),
                translate_entry_with(offsets_of(d), code@.len()),
            ) {
                Err(e) => r matches Err(e2) && e2 == e && final(exception_table)@ == old(
                    exception_table,
                )@,
                Ok(t) => exception_table_view(final(exception_table)@) == t && match traverse(
                    d,
                    relocate_with(class_area@, offsets_of(d)),
                ) {
                    Ok(c) => r matches Ok(v) && instructions_view(v@) == c,
                    Err(e) => r matches Err(e2) && e2 == e,
                },
            },
        },
{
    let mut decoded = match decode_all(constants, code) {
        Ok(d) => d,
        Err(e) => {
            return Err(e);
        },
    };
    let ghost d = decoded_view(decoded@);
    let mut offsets: Vec<usize> = Vec::new();
    let mut i: usize = 0;
    while i < decoded.len()
        invariant
            d == decoded_view(decoded@),
            i <= decoded@.len(),
            offsets@ =~= offsets_of(d).subrange(0, i as int),
        decreases decoded@.len() - i,
    {
        offsets.push(decoded[i].0);
        i = i + 1;
    }
    assert(offsets@ =~= offsets_of(d));
    match translate_table(&offsets, code.len(), exception_table) {
        Ok(()) => {},
        Err(e) => {
            return Err(e);
        },
    }
    let ghost f = relocate_with(class_area@, offsets_of(d));
    let ghost table_after = exception_table@;
    let mut out: Vec<Instruction> = Vec::new();
    let mut k: usize = 0;
    let n = decoded.len();
    assert(d.subrange(0, 0) =~= Seq::<(usize, InstructionView)>::empty());
    assert(instructions_view(out@) =~= Seq::<InstructionView>::empty());
    while k < n
        invariant
            exception_table@ == table_after,
            spec_decode_all(constants_view(constants@), code@, 0) == Ok::<_, LoadError>(d),
            traverse(exception_table_view(old(exception_table)@), translate_entry_with(offsets_of(d), code@.len()))
                == Ok::<_, LoadError>(exception_table_view(table_after)),
            n == d.len(),
            offsets@ == offsets_of(d),
            f == relocate_with(class_area@, offsets_of(d)),
            k <= n,
            decoded@.len() == n - k,
            decoded_view(decoded@) == d.subrange(k as int, n as int),
            traverse(d.subrange(0, k as int), f) == Ok::<_, LoadError>(instructions_view(out@)),
        decreases n - k,
    {
        let ghost rest = decoded@;
        assert(decoded_view(rest)[0] == d[k as int]);
        let (idx, instr) = decoded.remove(0);
        proof {
            assert((idx, instr@) == d[k as int]);
            assert(decoded_view(decoded@) =~= d.subrange(k + 1, n as int)) by {
                assert forall|j: int| 0 <= j < decoded@.len() implies decoded_view(decoded@)[j]
                    == d.subrange(k + 1, n as int)[j] by {
                    assert(decoded@[j] == rest[j + 1]);
                    assert(decoded_view(rest)[j + 1] == d.subrange(k as int, n as int)[j + 1]);
                }
            }
            assert(d.subrange(0, k + 1).drop_last() =~= d.subrange(0, k as int));
            assert(d.subrange(0, k + 1).last() == d[k as int]);
        }
        match relocate(class_area, &offsets, idx, instr) {
            Ok(i) => {
                let ghost before = out@;
                out.push(i);
                assert(instructions_view(out@) =~= instructions_view(before).push(i@));
            },
            Err(e) => {
                proof {
                    assert(f(d[k as int]) == spec_relocate(class_area@, offsets@, (idx, instr@)));
                    lemma_traverse_err(d, f, (k + 1) as nat);
                    assert(d.subrange(0, d.len() as int) =~= d);
                }
                return Err(e);
            },
        }
        k = k + 1;
    }
    assert(d.subrange(0, n as int) =~= d);
    Ok(out)
}

/// The exception-table entry at `p` of a `Code` attribute: three positions
/// and a class index (0 for "any"), and the position after it.
pub open spec fn spec_exception_entry(cs: Seq<ConstantView>, b: Seq<u8>, p: int) -> Result<
    (ExceptionTableEntryView, int),
    LoadError,
> {
    if p < 0 || p + 8 > b.len() {
        Err(LoadError::UnexpectedEof)
    } else {
        let ct = be16(b, p + 6);
        let catch_type: Result<Option<Seq<char>>, LoadError> = if ct == 0 {
            Ok(None)
        } else {
            match spec_class(cs, ct) {
                Ok(c) => Ok(Some(c)),
                Err(e) => Err(e),
            }
        };
        match catch_type {
            Ok(c) => Ok(
                (
                    ExceptionTableEntryView {
                        start_pc: be16(b, p) as u16,
                        end_pc: be16(b, p + 2) as u16,
                        handler_pc: be16(b, p + 4) as u16,
                        catch_type: c,
                    },
                    p + 8,
                ),
            ),
            Err(e) => Err(e),
        }
    }
}

/// `spec_exception_entry` as an item reader.
pub open spec fn exception_item(cs: Seq<ConstantView>, b: Seq<u8>) -> spec_fn(int) -> Result<
    (ExceptionTableEntryView, int),
    LoadError,
> {
    |q: int| spec_exception_entry(cs, b, q)
}

/// Reads the exception-table entry at `*pos` and moves past it.
pub fn parse_exception_entry(constants: &[Constant], bytes: &[u8], pos: &mut usize) -> (r: Result<
    ExceptionTableEntry,
    LoadError,
>)
    ensures
        match spec_exception_entry(constants_view(constants@), bytes@, *old(pos) as int) {
            Ok((e, q)) => r matches Ok(v) && v@ == e && *final(pos) == q,
            Err(e) => r matches Err(e2) && e2 == e,
        },
{
    if *pos > bytes.len() || 8 > bytes.len() - *pos {
        return Err(LoadError::UnexpectedEof);
    }
    let start_pc = get_u16(bytes, pos)?;
    let end_pc = get_u16(bytes, pos)?;
    let handler_pc = get_u16(bytes, pos)?;
    let ct = get_u16(bytes, pos)?;
    let catch_type = if ct == 0 {
        None
    } else {
        Some(class_index(constants, ct as usize)?)
    };
    Ok(ExceptionTableEntry { start_pc, end_pc, handler_pc, catch_type })
}

/// The data of an optional table attribute parsed by `parse`, or the empty
/// table when the attribute is absent.
pub open spec fn spec_optional_table<T>(
    data: Option<Seq<u8>>,
    parse: spec_fn(Seq<u8>) -> Result<Seq<T>, LoadError>,
) -> Result<Seq<T>, LoadError> {
    match data {
        Some(d) => parse(d),
        None => Ok(seq![]),
    }
}

/// What is read from a `Code` attribute before its tables: the limits, the
/// bytecode, the raw exception table and the attributes.
pub struct CodeParts {
    pub max_stack: u16,
    pub max_locals: u16,
    pub code: Seq<u8>,
    pub exception_table: Seq<ExceptionTableEntryView>,
    pub attributes: Seq<AttributeView>,
}

/// Reads the parts of a `Code` attribute's data `b`.
pub open spec fn spec_code_parts(cs: Seq<ConstantView>, b: Seq<u8>) -> Result<CodeParts, LoadError> {
    if b.len() < 8 {
        Err(LoadError::UnexpectedEof)
    } else {
        let p = 8 + be32(b, 4);
        if p + 2 > b.len() {
            Err(LoadError::UnexpectedEof)
        } else {
            match spec_repeat(exception_item(cs, b), p + 2, be16(b, p) as nat) {
                Err(e) => Err(e),
                Ok((table, q)) => if q + 2 > b.len() {
                    Err(LoadError::UnexpectedEof)
                } else {
                    match spec_attributes(cs, b, q + 2, be16(b, q) as nat) {
                        Err(e) => Err(e),
                        Ok((attrs, _)) => Ok(
                            CodeParts {
                                max_stack: be16(b, 0) as u16,
                                max_locals: be16(b, 2) as u16,
                                code: b.subrange(8, p),
                                exception_table: table,
                                attributes: attrs,
                            },
                        ),
                    }
                },
            }
        }
    }
}

/// The tables of a `Code` attribute read from its attributes: the stack map,
/// the line numbers, the local variable types and the local variables (each
/// empty when its attribute is absent), and the attributes left over.
pub struct CodeTables {
    pub stack_map: Seq<StackMapFrameView>,
    pub line_number_table: Seq<LineTableEntry>,
    pub local_type_table: Seq<LocalVarTypeEntryView>,
    pub local_var_table: Seq<LocalVarEntryView>,
    pub attributes: Seq<AttributeView>,
}

/// Reads the tables of a `Code` attribute from its attributes `attrs`.
pub open spec fn spec_code_tables(cs: Seq<ConstantView>, attrs: Seq<AttributeView>) -> Result<
    CodeTables,
    LoadError,
> {
    match spec_single_attribute(attrs, spec_attribute_name(AttributeName::StackMapTable)) {
        Err(e) => Err(e),
        Ok((sm, attrs1)) => match spec_optional_table(sm, |d: Seq<u8>| spec_stack_map(cs, d)) {
            Err(e) => Err(e),
            Ok(stack_map) => match spec_single_attribute(
                attrs1,
                spec_attribute_name(AttributeName::LineNumberTable),
            ) {
                Err(e) => Err(e),
                Ok((lt, attrs2)) => match spec_optional_table(lt, |d: Seq<u8>| spec_line_table(d)) {
                    Err(e) => Err(e),
                    Ok(lines) => match spec_single_attribute(
                        attrs2,
                        spec_attribute_name(AttributeName::LocalVariableTypeTable),
                    ) {
                        Err(e) => Err(e),
                        Ok((tt, attrs3)) => match spec_optional_table(
                            tt,
                            |d: Seq<u8>| spec_table(d, local_type_item(cs, d)),
                        ) {
                            Err(e) => Err(e),
                            Ok(types) => match spec_single_attribute(
                                attrs3,
                                spec_attribute_name(AttributeName::LocalVariableTable),
                            ) {
                                Err(e) => Err(e),
                                Ok((vt, attrs4)) => match spec_optional_table(
                                    vt,
                                    |d: Seq<u8>| spec_table(d, local_item(cs, d)),
                                ) {
                                    Err(e) => Err(e),
                                    Ok(vars) => Ok(
                                        CodeTables {
                                            stack_map,
                                            line_number_table: lines,
                                            local_type_table: types,
                                            local_var_table: vars,
                                            attributes: attrs4,
                                        },
                                    ),
                                },
                            },
                        },
                    },
                },
            },
        },
    }
}

/// The prepared bytecode of a `Code` attribute whose data is `b`, and the
/// method's number of local words.
pub open spec fn spec_code_attribute(area: SharedClassAreaView, cs: Seq<ConstantView>, b: Seq<u8>) -> Result<
    (ByteCodeView, u16),
    LoadError,
> {
    match spec_code_parts(cs, b) {
        Err(e) => Err(e),
        Ok(parts) => match spec_code_tables(cs, parts.attributes) {
            Err(e) => Err(e),
            Ok(tables) => match spec_decode_all(cs, parts.code, 0) {
                Err(e) => Err(e),
                Ok(d) => match traverse(parts.exception_table, translate_entry_with(offsets_of(d), parts.code.len())) {
                    Err(e) => Err(e),
                    Ok(table) => match traverse(d, relocate_with(area, offsets_of(d))) {
                        Err(e) => Err(e),
                        Ok(code) => Ok(
                            (
                                ByteCodeView {
                                    max_stack: parts.max_stack,
                                    code,
                                    exception_table: table,
                                    line_number_table: tables.line_number_table,
                                    local_type_table: tables.local_type_table,
                                    local_var_table: tables.local_var_table,
                                    stack_map: tables.stack_map,
                                    attributes: tables.attributes,
                                },
                                parts.max_locals,
                            ),
                        ),
                    },
                },
            },
        },
    }
}

/// Reads the parts of a `Code` attribute (see `spec_code_parts`): the
/// limits, the bytecode, the raw exception table and the attributes.
pub fn read_code_parts(constants: &[Constant], bytes: &[u8]) -> (r: Result<
    (u16, u16, Vec<u8>, Vec<ExceptionTableEntry>, Vec<Attribute>),
    LoadError,
>)
    ensures
        match spec_code_parts(constants_view(constants@), bytes@) {
            Ok(p) => r matches Ok((ms, ml, code, table, attrs)) && ms == p.max_stack && ml
                == p.max_locals && code@ == p.code && exception_table_view(table@)
                == p.exception_table && attributes_view(attrs@) == p.attributes,
            Err(e) => r matches Err(e2) && e2 == e,
        },
{
    let ghost cs = constants_view(constants@);
    let mut pos: usize = 0;
    if bytes.len() < 8 {
        return Err(LoadError::UnexpectedEof);
    }
    let max_stack = get_u16(bytes, &mut pos)?;
    let max_locals = get_u16(bytes, &mut pos)?;
    let code_length = get_u32(bytes, &mut pos)?;
    if code_length as u64 + 2 > (bytes.len() - 8) as u64 {
        return Err(LoadError::UnexpectedEof);
    }
    let code = get_bytes(bytes, &mut pos, code_length as usize)?;
    let n = get_u16(bytes, &mut pos)?;
    let ghost item = exception_item(cs, bytes@);
    let ghost p0 = pos as int;
    let mut table: Vec<ExceptionTableEntry> = Vec::new();
    let mut i: u16 = 0;
    while i < n
        invariant
            i <= n,
            bytes@.len() >= 8,
            p0 == 8 + be32(bytes@, 4) + 2,
            p0 <= bytes@.len(),
            n == be16(bytes@, 8 + be32(bytes@, 4)),
            code@ == bytes@.subrange(8, 8 + be32(bytes@, 4)),
            max_stack == be16(bytes@, 0),
            max_locals == be16(bytes@, 2),
            cs == constants_view(constants@),
            item == exception_item(cs, bytes@),
            spec_repeat(item, p0, i as nat) matches Ok((es, q)) && exception_table_view(table@)
                == es && pos == q,
        decreases n - i,
    {
        let ghost before = table@;
        let e = match parse_exception_entry(constants, bytes, &mut pos) {
            Ok(e) => e,
            Err(e) => {
                proof {
                    lemma_repeat_err(item, p0, i as nat, n as nat);
                }
                return Err(e);
            },
        };
        table.push(e);
        proof {
            assert(exception_table_view(table@) =~= exception_table_view(before).push(e@));
        }
        i = i + 1;
    }
    let count = get_u16(bytes, &mut pos)?;
    let attributes = get_attributes(constants, bytes, &mut pos, count)?;
    Ok((max_stack, max_locals, code, table, attributes))
}

/// Reads the tables of a `Code` attribute from its attributes (see
/// `spec_code_tables`).
pub fn read_code_tables(constants: &[Constant], attributes: &Vec<Attribute>) -> (r: Result<
    (
        Vec<StackMapFrame>,
        Vec<LineTableEntry>,
        Vec<LocalVarTypeEntry>,
        Vec<LocalVarEntry>,
        Vec<Attribute>,
    ),
    LoadError,
>)
    ensures
        match spec_code_tables(constants_view(constants@), attributes_view(attributes@)) {
            Ok(t) => r matches Ok((sm, lt, tt, vt, rest)) && frames_view(sm@) == t.stack_map
                && lt@ == t.line_number_table && local_types_view(tt@) == t.local_type_table
                && locals_view(vt@) == t.local_var_table && attributes_view(rest@) == t.attributes,
            Err(e) => r matches Err(e2) && e2 == e,
        },
{
    let name = attribute_name(AttributeName::StackMapTable);
    let (sm, attrs1) = single_attribute(attributes, name.as_slice())?;
    let stack_map = match sm {
        Some(d) => parse_stack_map(constants, d.as_slice())?,
        None => Vec::new(),
    };
    let name = attribute_name(AttributeName::LineNumberTable);
    let (lt, attrs2) = single_attribute(&attrs1, name.as_slice())?;
    let line_number_table = match lt {
        Some(d) => parse_line_table(d.as_slice())?,
        None => Vec::new(),
    };
    let name = attribute_name(AttributeName::LocalVariableTypeTable);
    let (tt, attrs3) = single_attribute(&attrs2, name.as_slice())?;
    let local_type_table = match tt {
        Some(d) => parse_local_type_table(constants, d.as_slice())?,
        None => Vec::new(),
    };
    let name = attribute_name(AttributeName::LocalVariableTable);
    let (vt, attrs4) = single_attribute(&attrs3, name.as_slice())?;
    let local_var_table = match vt {
        Some(d) => parse_local_table(constants, d.as_slice())?,
        None => Vec::new(),
    };
    proof {
        assert(frames_view(Seq::<StackMapFrame>::empty()) =~= Seq::<StackMapFrameView>::empty());
        assert(local_types_view(Seq::<LocalVarTypeEntry>::empty()) =~= Seq::<LocalVarTypeEntryView>::empty());
        assert(locals_view(Seq::<LocalVarEntry>::empty()) =~= Seq::<LocalVarEntryView>::empty());
    }
    Ok((stack_map, line_number_table, local_type_table, local_var_table, attrs4))
}

/// Parses the data of a method's `Code` attribute and prepares its code for
/// running; gives the bytecode and the method's number of local words.
pub fn parse_code_attribute(class_area: &SharedClassArea, constants: &[Constant], bytes: &[u8]) -> (r: Result<
    (ByteCode, u16),
    LoadError,
>)
    ensures
        match spec_code_attribute(class_area@, constants_view(constants@), bytes@) {
            Ok((bc, ml)) => r matches Ok((b, m)) && b@ == bc && m == ml,
            Err(e) => r matches Err(e2) && e2 == e,
        },
{
    let (max_stack, max_locals, code, mut exception_table, attributes) = read_code_parts(
        constants,
        bytes,
    )?;
    let (stack_map, line_number_table, local_type_table, local_var_table, attributes) =
        read_code_tables(constants, &attributes)?;
    let code = hydrate_code(class_area, constants, code.as_slice(), &mut exception_table)?;
    Ok(
        (
            ByteCode {
                max_stack,
                code,
                exception_table,
                line_number_table,
                local_type_table,
                local_var_table,
                stack_map,
                attributes,
            },
            max_locals,
        ),
    )
}

} // verus!
