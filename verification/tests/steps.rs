use jvmrs::class::{FieldType, MethodHandle};
use jvmrs::class_loader::{load_class, parse_method_descriptor};
use jvmrs::data::{WorkingClassArea, WorkingMethodArea, HEAP_START};
use jvmrs::dynamic::BootstrapRunner;
use jvmrs::error::{Error, Fault};
use jvmrs::frame::StackFrame;
use jvmrs::heap::Heap;
use jvmrs::native::add_native_methods;
use jvmrs::object::{Array1, LambdaOverride, NativeField, Object};
use jvmrs::thread::{Step, Thread};

fn chars(s: &str) -> Vec<char> {
    s.chars().collect()
}

fn utf8(out: &mut Vec<u8>, s: &str) {
    out.push(1);
    out.extend_from_slice(&(s.len() as u16).to_be_bytes());
    out.extend_from_slice(s.as_bytes());
}

/// A class `A` with one static method `f()I` running `code` (max stack 4,
/// max locals 2) with the exception table `table` of (start, end, handler)
/// entries that catch anything.
fn class_with_handlers(code: &[u8], table: &[(u16, u16, u16)]) -> Vec<u8> {
    let mut b = vec![0xCA, 0xFE, 0xBA, 0xBE, 0, 0, 0, 52];
    b.extend_from_slice(&8u16.to_be_bytes());
    utf8(&mut b, "A");
    b.extend_from_slice(&[7, 0, 1]);
    utf8(&mut b, "java/lang/Object");
    b.extend_from_slice(&[7, 0, 3]);
    utf8(&mut b, "f");
    utf8(&mut b, "()I");
    utf8(&mut b, "Code");
    b.extend_from_slice(&[0x00, 0x21, 0, 2, 0, 4, 0, 0, 0, 0]);
    b.extend_from_slice(&[0, 1, 0x00, 0x09, 0, 5, 0, 6, 0, 1, 0, 7]);
    b.extend_from_slice(&(12 + code.len() as u32 + 8 * table.len() as u32).to_be_bytes());
    b.extend_from_slice(&[0, 4, 0, 2]);
    b.extend_from_slice(&(code.len() as u32).to_be_bytes());
    b.extend_from_slice(code);
    b.extend_from_slice(&(table.len() as u16).to_be_bytes());
    for (start, end, handler) in table {
        b.extend_from_slice(&start.to_be_bytes());
        b.extend_from_slice(&end.to_be_bytes());
        b.extend_from_slice(&handler.to_be_bytes());
        b.extend_from_slice(&[0, 0]);
    }
    b.extend_from_slice(&[0, 0]);
    b.extend_from_slice(&[0, 0]);
    b
}

/// A thread running `A.f` with a caller frame holding the return address 7.
fn thread_with(code: &[u8], table: &[(u16, u16, u16)]) -> Thread {
    let mut methods = WorkingMethodArea::new();
    let mut classes = WorkingClassArea::new();
    add_native_methods(&mut methods, &mut classes);
    let class = load_class(&mut methods, &class_with_handlers(code, table)).unwrap();
    classes.push(class);
    let shared = classes.to_shared().unwrap();
    let prepared = methods.to_shared(&shared).unwrap();
    let (c, m) = prepared.search(&chars("A"), &chars("f"), &parse_method_descriptor(&chars("()I")).unwrap()).unwrap();
    let mut caller = StackFrame::from_method(m.clone(), c.clone());
    caller.operand_stack.push(7);
    let frame = StackFrame::from_method(m, c);
    Thread {
        pc_register: 0,
        stack: vec![caller],
        stackframe: frame,
        method_area: prepared,
        class_area: shared,
        heap: Heap::new(),
    }
}

fn text_at(t: &Thread, p: u32) -> String {
    match &t.heap.get(p as usize).unwrap().native_fields[0] {
        NativeField::Str(s) => s.iter().collect(),
        _ => panic!("not a string"),
    }
}

#[test]
fn a_handler_catches_a_thrown_exception() {
    // aconst_null; athrow; iconst_0; ireturn; (handler) iconst_1; ireturn
    let mut t = thread_with(&[0x01, 0xBF, 0x03, 0xAC, 0x04, 0xAC], &[(0, 2, 4)]);
    assert!(matches!(t.tick(), Ok(Step::Done)));
    assert!(matches!(t.tick(), Ok(Step::Done)));
    assert_eq!(t.pc_register, 4);
    assert_eq!(t.stackframe.operand_stack, vec![0]);
    assert!(matches!(t.tick(), Ok(Step::Done)));
    assert!(matches!(t.tick(), Ok(Step::Done)));
    assert!(t.stack.is_empty());
    assert_eq!(t.pc_register, 7);
    assert_eq!(t.stackframe.operand_stack, vec![1]);
}

#[test]
fn an_uncaught_division_by_zero_unwinds_every_frame() {
    // lconst_1; lconst_0; ldiv; ireturn
    let mut t = thread_with(&[0x0A, 0x09, 0x6D, 0xAC], &[]);
    assert!(matches!(t.tick(), Ok(Step::Done)));
    assert!(matches!(t.tick(), Ok(Step::Done)));
    match t.tick() {
        Err(e) => assert!(matches!(e, Error::Misc(Fault::UncaughtException)), "{:?}", e),
        Ok(_) => panic!("the division went on"),
    }
}

#[test]
fn a_caught_division_by_zero_goes_to_the_handler_with_the_exception() {
    // lconst_1; lconst_0; ldiv; ireturn; (handler) pop; iconst_2; ireturn
    let mut t = thread_with(&[0x0A, 0x09, 0x6D, 0xAC, 0x57, 0x05, 0xAC], &[(0, 3, 4)]);
    for _ in 0..3 {
        assert!(matches!(t.tick(), Ok(Step::Done)));
    }
    assert_eq!(t.pc_register, 4);
    assert_eq!(t.stackframe.operand_stack, vec![HEAP_START]);
    let e = t.heap.get(HEAP_START as usize).unwrap();
    assert_eq!(e.class, chars("java/lang/ArithmeticException"));
    for _ in 0..3 {
        assert!(matches!(t.tick(), Ok(Step::Done)));
    }
    assert_eq!(t.stackframe.operand_stack, vec![2]);
}

#[test]
fn multianewarray_makes_nested_arrays() {
    // new int[2][3]: the outer size deepest, the inner size on top
    let mut t = thread_with(&[0x04, 0xAC], &[]);
    t.stackframe.operand_stack.push(2);
    t.stackframe.operand_stack.push(3);
    let ty = FieldType::Array(Box::new(FieldType::Array(Box::new(FieldType::Int))));
    t.new_multi_array(2, &ty).unwrap();
    assert_eq!(t.stackframe.operand_stack, vec![HEAP_START + 2]);
    let outer = t.heap.get((HEAP_START + 2) as usize).unwrap();
    assert!(matches!(&outer.native_fields[0], NativeField::ArrayType(FieldType::Array(inner)) if matches!(**inner, FieldType::Int)));
    match &outer.native_fields[1] {
        NativeField::Words(w) => assert_eq!(w, &vec![HEAP_START, HEAP_START + 1]),
        _ => panic!("not a one-word array"),
    }
    for k in 0..2 {
        let inner = t.heap.get((HEAP_START + k) as usize).unwrap();
        assert!(matches!(&inner.native_fields[0], NativeField::ArrayType(FieldType::Int)));
        match &inner.native_fields[1] {
            NativeField::Words(w) => assert_eq!(w, &vec![0, 0, 0]),
            _ => panic!("not a one-word array"),
        }
    }
    assert!(matches!(t.new_multi_array(3, &ty), Err(Fault::StackUnderflow)));
}

#[test]
fn concatenation_sites_join_their_pieces() {
    let mut t = thread_with(&[0x04, 0xAC], &[]);
    t.stackframe.operand_stack.push(9);
    t.stackframe.operand_stack.push((-5i32) as u32);
    let site = BootstrapRunner::MakeConcatWithConsts {
        template: chars("x=\u{1}!"),
        parameters: vec![FieldType::Int],
        parameter_size: 1,
    };
    assert!(matches!(site.run(&mut t), Ok(Step::Done)));
    assert_eq!(t.stackframe.operand_stack.len(), 2);
    assert_eq!(t.stackframe.operand_stack[0], 9);
    let p = t.stackframe.operand_stack[1];
    assert_eq!(text_at(&t, p), "x=-5!");
}

#[test]
fn lambda_factory_sites_keep_the_captured_words() {
    let mut t = thread_with(&[0x04, 0xAC], &[]);
    t.stackframe.operand_stack.push(10);
    t.stackframe.operand_stack.push(20);
    let site = BootstrapRunner::LambdaMetaFactory { captures_length: 2, lambda_interface: chars("I") };
    assert!(matches!(site.run(&mut t), Ok(Step::Done)));
    assert_eq!(t.stackframe.operand_stack, vec![HEAP_START]);
    let o = t.heap.get(HEAP_START as usize).unwrap();
    assert_eq!(o.fields, vec![10, 20]);
    assert_eq!(o.class, chars("I"));
    let empty = BootstrapRunner::LambdaMetaFactory { captures_length: 5, lambda_interface: chars("I") };
    assert!(matches!(empty.run(&mut t), Err(Error::Misc(Fault::StackUnderflow))));
}

#[test]
fn lambdas_call_their_target_with_the_captures_first() {
    let mut t = thread_with(&[0x04, 0xAC], &[]);
    t.stackframe.locals = vec![HEAP_START, 9];
    let lambda = LambdaOverride {
        method_name: chars("apply"),
        method_descriptor: parse_method_descriptor(&chars("(I)I")).unwrap(),
        invoke: MethodHandle::InvokeStatic {
            class: chars("A"),
            name: chars("f"),
            method_type: parse_method_descriptor(&chars("()I")).unwrap(),
        },
        captures: vec![4],
    };
    lambda.run(&mut t).unwrap();
    assert_eq!(t.pc_register, 0);
    assert_eq!(t.stack.len(), 2);
    assert_eq!(t.stackframe.locals, vec![4, 9]);
    assert_eq!(t.stack[1].operand_stack, vec![1]);
    t.pc_register = 5;
    assert!(matches!(lambda.run(&mut t), Err(Error::Misc(Fault::PcOutOfRange))));
}

#[test]
fn freeing_an_array_of_references_frees_what_only_it_held() {
    let t = thread_with(&[0x04, 0xAC], &[]);
    let mut h = Heap::new();
    let inner = h.allocate(Object { fields: Vec::new(), native_fields: Vec::new(), class: chars("A") });
    h.inc_ref(inner).unwrap();
    let shared = h.allocate(Object { fields: Vec::new(), native_fields: Vec::new(), class: chars("A") });
    h.inc_ref(shared).unwrap();
    h.inc_ref(shared).unwrap();
    let outer = h.allocate(Array1::from_vec(vec![inner, shared], FieldType::Object(chars("A"))));
    h.inc_ref(outer).unwrap();
    h.dec_ref(outer, &t.class_area).unwrap();
    assert!(h.get(outer as usize).is_none());
    assert!(h.get(inner as usize).is_none());
    assert!(h.get(shared as usize).is_some());
    h.dec_ref(shared, &t.class_area).unwrap();
    assert!(h.get(shared as usize).is_none());
}

/// Runs `steps` instructions and gives the operand stack.
fn run_steps(t: &mut Thread, steps: usize) -> Vec<u32> {
    for _ in 0..steps {
        assert!(matches!(t.tick(), Ok(Step::Done)));
    }
    t.stackframe.operand_stack.clone()
}

#[test]
fn swap_exchanges_the_two_top_words() {
    // iconst_1; iconst_2; swap; ireturn
    let mut t = thread_with(&[0x04, 0x05, 0x5F, 0xAC], &[]);
    assert_eq!(run_steps(&mut t, 3), vec![2, 1]);
    assert_eq!(t.pc_register, 3);
}

#[test]
fn dup_forms_copy_the_top_words_into_place() {
    // iconst_1; iconst_2; dup_x1
    let mut t = thread_with(&[0x04, 0x05, 0x5A, 0xAC], &[]);
    assert_eq!(run_steps(&mut t, 3), vec![2, 1, 2]);
    // iconst_1; iconst_2; dup2
    let mut t = thread_with(&[0x04, 0x05, 0x5C, 0xAC], &[]);
    assert_eq!(run_steps(&mut t, 3), vec![1, 2, 1, 2]);
    // iconst_1; iconst_2; iconst_3; dup_x2
    let mut t = thread_with(&[0x04, 0x05, 0x06, 0x5B, 0xAC], &[]);
    assert_eq!(run_steps(&mut t, 4), vec![3, 1, 2, 3]);
    // iconst_1; iconst_2; iconst_3; dup2_x1
    let mut t = thread_with(&[0x04, 0x05, 0x06, 0x5D, 0xAC], &[]);
    assert_eq!(run_steps(&mut t, 4), vec![2, 3, 1, 2, 3]);
}

#[test]
fn int_overflow_wraps_in_division_and_negation() {
    let min = i32::MIN as u32;
    // idiv; ireturn
    let mut t = thread_with(&[0x6C, 0xAC], &[]);
    t.stackframe.operand_stack = vec![min, (-1i32) as u32];
    assert_eq!(run_steps(&mut t, 1), vec![min]);
    // irem; ireturn
    let mut t = thread_with(&[0x70, 0xAC], &[]);
    t.stackframe.operand_stack = vec![min, (-1i32) as u32];
    assert_eq!(run_steps(&mut t, 1), vec![0]);
    // ineg; ireturn
    let mut t = thread_with(&[0x74, 0xAC], &[]);
    t.stackframe.operand_stack = vec![min];
    assert_eq!(run_steps(&mut t, 1), vec![min]);
    // idiv of -7 by 2 rounds toward zero
    let mut t = thread_with(&[0x6C, 0xAC], &[]);
    t.stackframe.operand_stack = vec![(-7i32) as u32, 2];
    assert_eq!(run_steps(&mut t, 1), vec![(-3i32) as u32]);
}

#[test]
fn int_division_by_zero_throws_an_arithmetic_exception() {
    // iconst_1; iconst_0; idiv; ireturn; (handler) pop; iconst_2; ireturn
    let mut t = thread_with(&[0x04, 0x03, 0x6C, 0xAC, 0x57, 0x05, 0xAC], &[(0, 3, 4)]);
    run_steps(&mut t, 3);
    assert_eq!(t.pc_register, 4);
    assert_eq!(t.stackframe.operand_stack, vec![HEAP_START]);
    assert_eq!(t.heap.get(HEAP_START as usize).unwrap().class, chars("java/lang/ArithmeticException"));
    // iconst_1; iconst_0; irem; ireturn: uncaught
    let mut t = thread_with(&[0x04, 0x03, 0x70, 0xAC], &[]);
    run_steps(&mut t, 2);
    assert!(matches!(t.tick(), Err(Error::Misc(Fault::UncaughtException))));
}

#[test]
fn a_handler_may_end_at_the_code_length() {
    // iconst_1; iconst_0; idiv; ireturn; (handler) pop; iconst_2; ireturn
    let mut t = thread_with(&[0x04, 0x03, 0x6C, 0xAC, 0x57, 0x05, 0xAC], &[(0, 7, 4)]);
    run_steps(&mut t, 3);
    assert_eq!(t.pc_register, 4);
}

#[test]
fn i2c_keeps_sixteen_bits() {
    // i2c; ireturn
    let mut t = thread_with(&[0x92, 0xAC], &[]);
    t.stackframe.operand_stack = vec![0x12345];
    assert_eq!(run_steps(&mut t, 1), vec![0x2345]);
}

#[test]
fn ifnull_and_ifnonnull_branch_on_null() {
    // aconst_null; ifnull +5; iconst_0; ireturn; iconst_1; ireturn
    let mut t = thread_with(&[0x01, 0xC6, 0x00, 0x05, 0x03, 0xAC, 0x04, 0xAC], &[]);
    run_steps(&mut t, 2);
    assert_eq!(t.pc_register, 4);
    // aconst_null; ifnonnull +5; iconst_0; ireturn; iconst_1; ireturn
    let mut t = thread_with(&[0x01, 0xC7, 0x00, 0x05, 0x03, 0xAC, 0x04, 0xAC], &[]);
    run_steps(&mut t, 2);
    assert_eq!(t.pc_register, 2);
}

#[test]
fn instance_checks_walk_up_from_the_object_class() {
    let t = thread_with(&[0x04, 0xAC], &[]);
    let a = Object { fields: Vec::new(), native_fields: Vec::new(), class: chars("A") };
    assert!(matches!(a.isinstance(&t.class_area, &chars("A")), Ok(true)));
    assert!(matches!(a.isinstance(&t.class_area, &chars("java/lang/Object")), Ok(true)));
    assert!(matches!(a.isinstance(&t.class_area, &chars("java/lang/String")), Ok(false)));
    assert!(matches!(a.isinstance(&t.class_area, &chars("Nowhere")), Err(Error::ClassResolution(_))));
    let e = Object { fields: Vec::new(), native_fields: Vec::new(), class: chars("java/lang/ArithmeticException") };
    assert!(matches!(e.isinstance(&t.class_area, &chars("java/lang/Throwable")), Ok(true)));
    assert!(matches!(e.isinstance(&t.class_area, &chars("A")), Ok(false)));
}
