use std::sync::Arc;

use jvmrs::class_loader::{load_class, parse_method_descriptor};
use jvmrs::data::{MethodArea, SharedClassArea, WorkingClassArea, WorkingMethodArea, HEAP_START};
use jvmrs::error::{Error, Fault};
use jvmrs::frame::StackFrame;
use jvmrs::heap::Heap;
use jvmrs::native::add_native_methods;
use jvmrs::object::Object;
use jvmrs::thread::{Step, Thread};

fn chars(s: &str) -> Vec<char> {
    s.chars().collect()
}

fn utf8(out: &mut Vec<u8>, s: &str) {
    out.push(1);
    out.extend_from_slice(&(s.len() as u16).to_be_bytes());
    out.extend_from_slice(s.as_bytes());
}

/// A class `A` with one static method `f()I` running `code` (max stack 4,
/// max locals 2).
fn class_with_code(code: &[u8]) -> Vec<u8> {
    let mut b = vec![0xCA, 0xFE, 0xBA, 0xBE, 0, 0, 0, 52];
    b.extend_from_slice(&8u16.to_be_bytes());
    utf8(&mut b, "A");
    b.extend_from_slice(&[7, 0, 1]);
    utf8(&mut b, "java/lang/Object");
    b.extend_from_slice(&[7, 0, 3]);
    utf8(&mut b, "f");
    utf8(&mut b, "()I");
    utf8(&mut b, "Code");
    b.extend_from_slice(&[0x00, 0x21, 0, 2, 0, 4, 0, 0, 0, 0]);
    b.extend_from_slice(&[0, 1, 0x00, 0x09, 0, 5, 0, 6, 0, 1, 0, 7]);
    b.extend_from_slice(&(12 + code.len() as u32).to_be_bytes());
    b.extend_from_slice(&[0, 4, 0, 2]);
    b.extend_from_slice(&(code.len() as u32).to_be_bytes());
    b.extend_from_slice(code);
    b.extend_from_slice(&[0, 0, 0, 0]);
    b.extend_from_slice(&[0, 0]);
    b
}

fn areas(code: &[u8]) -> (MethodArea, SharedClassArea) {
    let mut methods = WorkingMethodArea::new();
    let mut classes = WorkingClassArea::new();
    add_native_methods(&mut methods, &mut classes);
    let class = load_class(&mut methods, &class_with_code(code)).unwrap();
    classes.push(class);
    let shared = classes.to_shared().unwrap();
    let prepared = methods.to_shared(&shared).unwrap();
    (prepared, shared)
}

/// A thread running `A.f` with a caller frame holding the return address 7.
fn thread_for(code: &[u8]) -> Thread {
    let (methods, classes) = areas(code);
    let (c, m) = methods.search(&chars("A"), &chars("f"), &parse_method_descriptor(&chars("()I")).unwrap()).unwrap();
    let mut caller = StackFrame::from_method(m.clone(), c.clone());
    caller.operand_stack.push(7);
    let frame = StackFrame::from_method(m, c);
    Thread {
        pc_register: 0,
        stack: vec![caller],
        stackframe: frame,
        method_area: methods,
        class_area: classes,
        heap: Heap::new(),
    }
}

fn run_until_return(t: &mut Thread, limit: usize) {
    for _ in 0..limit {
        if t.stack.is_empty() {
            return;
        }
        assert!(matches!(t.tick(), Ok(Step::Done)));
    }
}

#[test]
fn runs_a_method_and_returns_its_value() {
    // iconst_2; iconst_3; iadd; ireturn
    let mut t = thread_for(&[0x05, 0x06, 0x60, 0xAC]);
    run_until_return(&mut t, 4);
    assert!(t.stack.is_empty());
    assert_eq!(t.stackframe.operand_stack, vec![5]);
    assert_eq!(t.pc_register, 7);
}

#[test]
fn locals_and_branches_compute_a_loop() {
    // sum of 1..=4 with locals 0 (i) and 1 (sum):
    // iconst_4 istore_0 iconst_0 istore_1
    // L: iload_0 ifeq +13 iload_1 iload_0 iadd istore_1 iinc 0 -1 goto -11
    // iload_1 ireturn
    let code = [
        0x07, 0x3B, 0x03, 0x3C, 0x1A, 0x99, 0x00, 0x0D, 0x1B, 0x1A, 0x60, 0x3C, 0x84, 0x00, 0xFF, 0xA7, 0xFF,
        0xF5, 0x1B, 0xAC,
    ];
    let mut t = thread_for(&code);
    run_until_return(&mut t, 100);
    assert!(t.stack.is_empty());
    assert_eq!(t.stackframe.operand_stack, vec![10]);
}

#[test]
fn division_by_zero_without_a_handler_stops() {
    // iconst_1; iconst_0; idiv; ireturn
    let mut t = thread_for(&[0x04, 0x03, 0x6C, 0xAC]);
    assert!(matches!(t.tick(), Ok(Step::Done)));
    assert!(matches!(t.tick(), Ok(Step::Done)));
    let r = t.tick();
    assert!(r.is_err());
}

#[test]
fn running_off_the_end_of_the_code_is_refused() {
    // iconst_1 and nothing after
    let mut t = thread_for(&[0x04]);
    assert!(matches!(t.tick(), Ok(Step::Done)));
    assert!(matches!(t.tick(), Err(Error::Misc(Fault::PcOutOfRange))));
}

#[test]
fn returning_from_the_outermost_frame_ends_the_thread() {
    let mut t = thread_for(&[0xB1]);
    t.stack.clear();
    assert!(matches!(t.return_void(), Err(Error::ThreadKill)));
}

#[test]
fn calling_then_returning_restores_the_caller() {
    let mut t = thread_for(&[0x04, 0xAC]);
    let before_locals = t.stackframe.locals.clone();
    let m = t.stackframe.method.clone();
    let c = t.stackframe.class.clone();
    t.pc_register = 3;
    t.stackframe.operand_stack.push(11);
    t.invoke_method(m, c);
    assert_eq!(t.pc_register, 0);
    assert_eq!(t.stack.len(), 2);
    t.return_void().unwrap();
    assert_eq!(t.pc_register, 11);
    assert_eq!(t.stack.len(), 1);
    assert_eq!(t.stackframe.locals, before_locals);
    assert!(t.stackframe.operand_stack.is_empty());
}

#[test]
fn heap_gives_back_what_was_allocated() {
    let mut h = Heap::new();
    let o = Object { fields: vec![1, 2, 3], native_fields: Vec::new(), class: chars("A") };
    let p = h.allocate(o);
    assert_eq!(p, HEAP_START);
    assert_eq!(h.get(p as usize).unwrap().fields, vec![1, 2, 3]);
    assert!(h.get(p as usize + 1).is_none());
    assert!(h.get(0).is_none());
    assert_eq!(h.set_field(p, 1, 9).unwrap(), 2);
    assert_eq!(h.get_field(p, 1).unwrap(), 9);
    assert_eq!(h.get_field(p, 0).unwrap(), 1);
    assert!(matches!(h.get_field(p, 3), Err(Fault::FieldOutOfRange)));
    assert!(matches!(h.get_field(0, 0), Err(Fault::NullPointer)));
}

#[test]
fn strings_are_kept_once() {
    let mut h = Heap::new();
    let a = h.allocate_str(chars("hi"));
    let b = h.allocate_str(chars("hi"));
    let c = h.allocate_str(chars("ho"));
    assert_eq!(a, b);
    assert_ne!(a, c);
    assert_eq!(h.len(), 2);
}

#[test]
fn counts_references_and_frees_at_zero() {
    let (_, classes) = areas(&[0x04, 0xAC]);
    let mut h = Heap::new();
    let p = h.allocate(Object { fields: Vec::new(), native_fields: Vec::new(), class: chars("A") });
    h.inc_ref(p).unwrap();
    h.inc_ref(p).unwrap();
    h.dec_ref(p, &classes).unwrap();
    assert!(h.get(p as usize).is_some());
    h.dec_ref(p, &classes).unwrap();
    assert!(h.get(p as usize).is_none());
    assert!(matches!(h.inc_ref(p + 1), Err(Fault::NullPointer)));
    assert!(matches!(h.dec_ref(p, &classes), Err(Error::Misc(Fault::RefCountUnderflow))));
}

#[test]
fn natives_are_filed_with_their_classes() {
    let (methods, classes) = areas(&[0x04, 0xAC]);
    for name in [
        "java/lang/Object",
        "java/lang/String",
        "java/lang/StringBuilder",
        "java/io/PrintStream",
        "java/lang/System",
        "java/util/HashMap",
        "java/util/ArrayList",
        "java/lang/Integer",
        "java/lang/ArithmeticException",
        "java/lang/Class",
    ] {
        assert!(classes.search(&chars(name)).is_some(), "{name}");
    }
    let desc = parse_method_descriptor(&chars("(Ljava/lang/String;)V")).unwrap();
    let (_, m) = methods.search(&chars("java/io/PrintStream"), &chars("println"), &desc).unwrap();
    assert_eq!(m.code.as_native(), Some(jvmrs::native::PRINTLN_OBJECT));
    let _ = Arc::clone(&m);
}
