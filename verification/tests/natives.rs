use rand::rngs::StdRng;
use rand::SeedableRng;

use jvmrs::class_loader::parse_method_descriptor;
use jvmrs::data::{WorkingClassArea, WorkingMethodArea, HEAP_START, NULL};
use jvmrs::error::{Error, Fault};
use jvmrs::frame::StackFrame;
use jvmrs::heap::Heap;
use jvmrs::native::arrays::{arraycopy, arrays_deep_to_string, arrays_to_string};
use jvmrs::native::collections::{
    array_list_add, array_list_init, array_list_sort, collection_size, hash_map_get, hash_map_init, hash_map_put,
    hash_set_contains, hash_set_init, hash_set_insert,
};
use jvmrs::native::object::{
    class_get_name, enum_init, enum_name, next_int, object_get_class, object_to_string, println_bool, println_char,
    println_empty, println_int, println_long, system_clinit,
};
use jvmrs::native::primitives::{wrapper_parse, wrapper_to_string, wrapper_value, wrapper_value_of, BYTE, INT, LONG};
use jvmrs::native::string::{string_char_at, string_compare_to, string_contains, string_length, string_value_of};
use jvmrs::native::string_builder::{builder_init, builder_set_char_at, builder_to_string};
use jvmrs::native::{add_native_methods, run_native, NativeOutcome, MATH_SQRT, TODO};
use jvmrs::object::{random_init, Array1, Array2, NativeField, Object};
use jvmrs::thread::Thread;
use jvmrs::class::{FieldType, MethodDescriptor};
use jvmrs::native::function::{
    function_identity_step, optional_check, optional_of, optional_to_string, predicate_negate, NONE,
};

fn chars(s: &str) -> Vec<char> {
    s.chars().collect()
}

fn text(v: &[char]) -> String {
    v.iter().collect()
}

/// A thread whose running frame is the native method `class.name desc` with
/// the locals `locals`, called from a frame holding the return address 5.
fn native_thread(class: &str, name: &str, desc: &str, locals: &[u32]) -> Thread {
    native_thread_with(class, name, parse_method_descriptor(&chars(desc)).unwrap(), locals)
}

/// As `native_thread`, with the descriptor given as filed.
fn native_thread_with(class: &str, name: &str, d: MethodDescriptor, locals: &[u32]) -> Thread {
    let mut methods = WorkingMethodArea::new();
    let mut classes = WorkingClassArea::new();
    add_native_methods(&mut methods, &mut classes);
    let shared = classes.to_shared().unwrap();
    let prepared = methods.to_shared(&shared).unwrap();
    let (c, m) = prepared.search(&chars(class), &chars(name), &d).unwrap();
    let mut caller = StackFrame::from_method(m.clone(), c.clone());
    caller.operand_stack.push(5);
    let mut frame = StackFrame::from_method(m, c);
    frame.locals = locals.to_vec();
    Thread {
        pc_register: 0,
        stack: vec![caller],
        stackframe: frame,
        method_area: prepared,
        class_area: shared,
        heap: Heap::new(),
    }
}

/// The word that came back to the caller.
fn returned(t: &Thread) -> u32 {
    assert!(t.stack.is_empty());
    assert_eq!(t.pc_register, 5);
    *t.stackframe.operand_stack.last().unwrap()
}

fn string_text(t: &Thread, p: u32) -> String {
    match &t.heap.get(p as usize).unwrap().native_fields[0] {
        NativeField::Str(s) => text(s),
        _ => panic!("not a string"),
    }
}

#[test]
fn string_length_counts_utf8_bytes() {
    let mut t = native_thread("java/lang/String", "length", "()I", &[0]);
    let s = t.heap.allocate_str(chars("héllo"));
    t.stackframe.locals[0] = s;
    string_length(&mut t).unwrap();
    assert_eq!(returned(&t), 6);
}

#[test]
fn string_char_at_and_its_bounds() {
    let mut t = native_thread("java/lang/String", "charAt", "(I)C", &[0, 1]);
    let s = t.heap.allocate_str(chars("abc"));
    t.stackframe.locals[0] = s;
    string_char_at(&mut t).unwrap();
    assert_eq!(returned(&t), 'b' as u32);
    let mut t = native_thread("java/lang/String", "charAt", "(I)C", &[0, 3]);
    let s = t.heap.allocate_str(chars("abc"));
    t.stackframe.locals[0] = s;
    assert!(matches!(string_char_at(&mut t), Err(Error::Misc(Fault::IndexOutOfBounds))));
    let mut t = native_thread("java/lang/String", "charAt", "(I)C", &[]);
    assert!(matches!(string_char_at(&mut t), Err(Error::Misc(Fault::LocalOutOfRange))));
}

#[test]
fn string_compare_to_orders_by_code_point() {
    for (a, b, want) in [("abc", "abd", u32::MAX), ("abc", "abc", 0), ("b", "abc", 1), ("ab", "abc", u32::MAX)] {
        let mut t = native_thread("java/lang/String", "compareTo", "(Ljava/lang/String;)I", &[0, 0]);
        let pa = t.heap.allocate_str(chars(a));
        let pb = t.heap.allocate_str(chars(b));
        t.stackframe.locals = vec![pa, pb];
        string_compare_to(&mut t).unwrap();
        assert_eq!(returned(&t), want, "{a} {b}");
    }
}

#[test]
fn string_contains_finds_pieces() {
    for (a, b, want) in [("hello", "ell", 1), ("hello", "", 1), ("hello", "lo!", 0), ("", "a", 0)] {
        let mut t = native_thread("java/lang/String", "contains", "(Ljava/lang/CharSequence;)Z", &[0, 0]);
        let pa = t.heap.allocate_str(chars(a));
        let pb = t.heap.allocate_str(chars(b));
        t.stackframe.locals = vec![pa, pb];
        string_contains(&mut t).unwrap();
        assert_eq!(returned(&t), want, "{a} {b}");
    }
}

#[test]
fn string_value_of_null_is_the_word_null() {
    let mut t = native_thread("java/lang/String", "valueOf", "(Ljava/lang/Object;)Ljava/lang/String;", &[NULL, 0]);
    string_value_of(&mut t).unwrap();
    let p = returned(&t);
    assert_eq!(string_text(&t, p), "null");
}

#[test]
fn string_value_of_calls_to_string_first() {
    let mut t = native_thread("java/lang/String", "valueOf", "(Ljava/lang/Object;)Ljava/lang/String;", &[0, 0]);
    let o = t.heap.allocate_str(chars("x"));
    t.stackframe.locals[0] = o;
    string_value_of(&mut t).unwrap();
    // now running String.toString with the object as local 0
    assert_eq!(t.stack.len(), 2);
    assert_eq!(t.stackframe.locals[0], o);
    assert_eq!(t.pc_register, 0);
}

#[test]
fn object_to_string_writes_eight_hex_digits() {
    let mut t = native_thread("java/lang/Object", "toString", "()Ljava/lang/String;", &[0x8000_00AB]);
    object_to_string(&mut t).unwrap();
    let p = returned(&t);
    assert_eq!(string_text(&t, p), "800000AB");
}

#[test]
fn printing_primitives_gives_their_text() {
    let mut t = native_thread("java/io/PrintStream", "println", "(I)V", &[0, (-42i32) as u32]);
    assert_eq!(text(&println_int(&mut t).unwrap().unwrap()), "-42");
    let mut t = native_thread("java/io/PrintStream", "println", "(Z)V", &[0, 2]);
    assert_eq!(text(&println_bool(&mut t).unwrap().unwrap()), "true");
    let mut t = native_thread("java/io/PrintStream", "println", "(C)V", &[0, 'é' as u32]);
    assert_eq!(text(&println_char(&mut t).unwrap().unwrap()), "é");
    let mut t = native_thread("java/io/PrintStream", "println", "(C)V", &[0, 0xD800]);
    assert!(matches!(println_char(&mut t), Err(Error::Misc(Fault::BadText))));
    let v: i64 = -5_000_000_000;
    let w = v as u64;
    let mut t = native_thread("java/io/PrintStream", "println", "(J)V", &[0, (w >> 32) as u32, w as u32]);
    assert_eq!(text(&println_long(&mut t).unwrap().unwrap()), "-5000000000");
    let mut t = native_thread("java/io/PrintStream", "println", "()V", &[0]);
    assert_eq!(text(&println_empty(&mut t).unwrap().unwrap()), "");
    assert!(t.stack.is_empty());
}

#[test]
fn builder_edits_its_text() {
    let mut t = native_thread("java/lang/StringBuilder", "<init>", "(Ljava/lang/String;)V", &[0, 0]);
    let b = t.heap.allocate(Object { fields: Vec::new(), native_fields: Vec::new(), class: chars("java/lang/StringBuilder") });
    let s = t.heap.allocate_str(chars("cat"));
    t.stackframe.locals = vec![b, s];
    builder_init(&mut t).unwrap();
    let heap = std::mem::replace(&mut t.heap, Heap::new());
    let mut t = native_thread("java/lang/StringBuilder", "setCharAt", "(IC)V", &[b, 0, 'b' as u32]);
    t.heap = heap;
    builder_set_char_at(&mut t).unwrap();
    let heap = std::mem::replace(&mut t.heap, Heap::new());
    let mut t = native_thread("java/lang/StringBuilder", "setCharAt", "(IC)V", &[b, 3, 'b' as u32]);
    t.heap = heap;
    assert!(matches!(builder_set_char_at(&mut t), Err(Error::Misc(Fault::IndexOutOfBounds))));
    let heap = std::mem::replace(&mut t.heap, Heap::new());
    let mut t = native_thread("java/lang/StringBuilder", "toString", "()Ljava/lang/String;", &[b]);
    t.heap = heap;
    builder_to_string(&mut t).unwrap();
    let p = returned(&t);
    assert_eq!(string_text(&t, p), "bat");
}

#[test]
fn enum_keeps_its_name() {
    let mut t = native_thread("java/lang/Enum", "<init>", "(Ljava/lang/String;I)V", &[0, 0, 3]);
    let e = t.heap.allocate(Object { fields: vec![0, 0], native_fields: Vec::new(), class: chars("java/lang/Enum") });
    let n = t.heap.allocate_str(chars("RED"));
    t.stackframe.locals = vec![e, n, 3];
    enum_init(&mut t).unwrap();
    assert_eq!(t.heap.get(e as usize).unwrap().fields, vec![n, 3]);
    let heap = std::mem::replace(&mut t.heap, Heap::new());
    let mut t = native_thread("java/lang/Enum", "name", "()Ljava/lang/Object;", &[e]);
    t.heap = heap;
    enum_name(&mut t).unwrap();
    assert_eq!(returned(&t), n);
}

#[test]
fn class_objects_name_their_class() {
    let mut t = native_thread("java/lang/Object", "getClass", "()Ljava/lang/Class;", &[0]);
    let o = t.heap.allocate(Object { fields: Vec::new(), native_fields: Vec::new(), class: chars("java/util/Random") });
    t.stackframe.locals[0] = o;
    object_get_class(&mut t).unwrap();
    let c = returned(&t);
    let heap = std::mem::replace(&mut t.heap, Heap::new());
    let mut t = native_thread("java/lang/Class", "getName", "()Ljava/lang/String;", &[c]);
    t.heap = heap;
    class_get_name(&mut t).unwrap();
    let p = returned(&t);
    assert_eq!(string_text(&t, p), "java/util/Random");
}

#[test]
fn random_draws_below_the_bound() {
    let mut t = native_thread("java/util/Random", "nextInt", "(I)I", &[0, 10]);
    let mut o = Object { fields: Vec::new(), native_fields: Vec::new(), class: chars("java/util/Random") };
    random_init(&mut o, StdRng::seed_from_u64(7));
    let r = t.heap.allocate(o);
    t.stackframe.locals[0] = r;
    next_int(&mut t).unwrap();
    assert!(returned(&t) < 10);
    let mut t = native_thread("java/util/Random", "nextInt", "(I)I", &[0, 0]);
    let mut o = Object { fields: Vec::new(), native_fields: Vec::new(), class: chars("java/util/Random") };
    random_init(&mut o, StdRng::seed_from_u64(7));
    t.stackframe.locals[0] = t.heap.allocate(o);
    assert!(matches!(next_int(&mut t), Err(Error::Misc(Fault::IndexOutOfBounds))));
}

#[test]
fn system_out_is_a_print_stream() {
    let mut t = native_thread("java/lang/System", "<clinit>", "()V", &[0]);
    system_clinit(&mut t).unwrap();
    let out = t.class_area.static_word(t.class_area.position(&chars("java/lang/System")).unwrap(), 0).unwrap();
    assert_eq!(out, HEAP_START);
    assert_eq!(t.heap.get(out as usize).unwrap().class, chars("java/io/PrintStream"));
}

#[test]
fn arrays_are_written_out() {
    let mut t = native_thread("java/util/Arrays", "toString", "([I)Ljava/lang/String;", &[0]);
    let a = t.heap.allocate(Array1::from_vec(vec![1, (-2i32) as u32, 3], FieldType::Int));
    t.stackframe.locals[0] = a;
    arrays_to_string(&mut t).unwrap();
    let p = returned(&t);
    assert_eq!(string_text(&t, p), "[1, -2, 3]");

    let mut t = native_thread("java/util/Arrays", "toString", "([Ljava/lang/Object;)Ljava/lang/String;", &[0]);
    let a = t.heap.allocate(Array1::from_vec(vec![NULL, 0xABCD], FieldType::Object(chars("X"))));
    t.stackframe.locals[0] = a;
    arrays_to_string(&mut t).unwrap();
    let p = returned(&t);
    assert_eq!(string_text(&t, p), "[null, &0000ABCD]");

    let mut t = native_thread("java/util/Arrays", "toString", "([I)Ljava/lang/String;", &[0]);
    let a = t.heap.allocate(Array2::from_vec(vec![u64::MAX], FieldType::Long));
    t.stackframe.locals[0] = a;
    arrays_to_string(&mut t).unwrap();
    let p = returned(&t);
    assert_eq!(string_text(&t, p), "[-1]");

    let mut t = native_thread("java/util/Arrays", "toString", "([I)Ljava/lang/String;", &[0]);
    let a = t.heap.allocate(Array1::from_vec(vec![0], FieldType::Float));
    t.stackframe.locals[0] = a;
    assert!(matches!(arrays_to_string(&mut t), Err(Error::Misc(Fault::Unsupported))));
}

#[test]
fn deep_to_string_follows_nested_arrays() {
    let mut t = native_thread("java/util/Arrays", "deepToString", "([Ljava/lang/Object;)Ljava/lang/String;", &[0]);
    let x = t.heap.allocate(Array1::from_vec(vec![1, 2], FieldType::Int));
    let y = t.heap.allocate(Array1::from_vec(vec!['a' as u32, '\n' as u32], FieldType::Char));
    let z = t.heap.allocate(Array1::from_vec(vec![1, 0], FieldType::Boolean));
    let outer = t.heap.allocate(Array1::from_vec(vec![x, y, z], FieldType::Array(Box::new(FieldType::Int))));
    t.stackframe.locals[0] = outer;
    arrays_deep_to_string(&mut t).unwrap();
    let p = returned(&t);
    assert_eq!(string_text(&t, p), "[[1, 2], ['a', '\\n'], [true, false]]");

    let mut t = native_thread("java/util/Arrays", "deepToString", "([Ljava/lang/Object;)Ljava/lang/String;", &[0]);
    let l = t.heap.allocate(Array2::from_vec(vec![1], FieldType::Long));
    t.stackframe.locals[0] = l;
    assert!(matches!(arrays_deep_to_string(&mut t), Err(Error::Misc(Fault::Unimplemented))));
}

#[test]
fn arraycopy_moves_a_range() {
    let mut t = native_thread("java/lang/System", "arraycopy", "(Ljava/lang/Object;ILjava/lang/Object;II)V", &[0; 5]);
    let a = t.heap.allocate(Array1::from_vec(vec![1, 2, 3, 4], FieldType::Int));
    let b = t.heap.allocate(Array1::from_vec(vec![0, 0, 0, 0], FieldType::Int));
    t.stackframe.locals = vec![a, 1, b, 2, 2];
    arraycopy(&mut t).unwrap();
    match &t.heap.get(b as usize).unwrap().native_fields[1] {
        NativeField::Words(w) => assert_eq!(w, &vec![0, 0, 2, 3]),
        _ => panic!("not an int array"),
    }
    let mut t = native_thread("java/lang/System", "arraycopy", "(Ljava/lang/Object;ILjava/lang/Object;II)V", &[0; 5]);
    let a = t.heap.allocate(Array1::from_vec(vec![1, 2], FieldType::Int));
    t.stackframe.locals = vec![a, 1, a, 0, 2];
    assert!(matches!(arraycopy(&mut t), Err(Error::Misc(Fault::IndexOutOfBounds))));
    let mut t = native_thread("java/lang/System", "arraycopy", "(Ljava/lang/Object;ILjava/lang/Object;II)V", &[0; 5]);
    let a = t.heap.allocate(Array1::from_vec(vec![1, 2], FieldType::Int));
    t.stackframe.locals = vec![a, u32::MAX, a, 0, 2];
    assert!(matches!(arraycopy(&mut t), Err(Error::Misc(Fault::Overflow))));
}

#[test]
fn hash_map_files_values_by_hash_code() {
    let mut t = native_thread("java/util/HashMap", "<init>", "()V", &[0]);
    let m = t.heap.allocate(Object { fields: Vec::new(), native_fields: Vec::new(), class: chars("java/util/HashMap") });
    t.stackframe.locals[0] = m;
    hash_map_init(&mut t).unwrap();
    let heap = std::mem::replace(&mut t.heap, Heap::new());
    // the second step of put: the hash code 77 came back
    let mut t = native_thread("java/util/HashMap", "put", "(Ljava/lang/Object;Ljava/lang/Object;)V", &[m, 0, 900]);
    t.heap = heap;
    t.pc_register = 1;
    t.stackframe.operand_stack.push(77);
    hash_map_put(&mut t).unwrap();
    let heap = std::mem::replace(&mut t.heap, Heap::new());
    let mut t = native_thread("java/util/HashMap", "get", "(Ljava/lang/Object;)Ljava/lang/Object;", &[m, 0]);
    t.heap = heap;
    t.pc_register = 1;
    t.stackframe.operand_stack.push(77);
    // the value is no object, so counting it is refused
    assert!(matches!(hash_map_get(&mut t), Err(Error::Misc(Fault::NullPointer))));
    let heap = std::mem::replace(&mut t.heap, Heap::new());
    let mut t = native_thread("java/util/HashMap", "size", "()I", &[m]);
    t.heap = heap;
    collection_size(&mut t).unwrap();
    assert_eq!(returned(&t), 1);
}

#[test]
fn hash_map_get_of_a_missing_key_is_null() {
    let mut t = native_thread("java/util/HashMap", "get", "(Ljava/lang/Object;)Ljava/lang/Object;", &[0, 0]);
    let m = t.heap.allocate(Object {
        fields: Vec::new(),
        native_fields: vec![NativeField::HashMap(vec![(1, 2)])],
        class: chars("java/util/HashMap"),
    });
    t.stackframe.locals[0] = m;
    t.pc_register = 1;
    t.stackframe.operand_stack.push(5);
    hash_map_get(&mut t).unwrap();
    assert_eq!(returned(&t), NULL);
}

#[test]
fn hash_map_asks_the_key_for_its_hash_code() {
    let mut t = native_thread("java/util/HashMap", "put", "(Ljava/lang/Object;Ljava/lang/Object;)V", &[0, 0, 0]);
    let k = t.heap.allocate_str(chars("key"));
    t.stackframe.locals[1] = k;
    // a string has the `hashCode` of `java/lang/Object`, called with the key
    assert!(hash_map_put(&mut t).is_ok());
    assert_eq!(t.stack.len(), 2);
    assert_eq!(t.pc_register, 0);
    assert_eq!(t.stackframe.method.name, chars("hashCode"));
    assert_eq!(t.stackframe.locals[0], k);
}

#[test]
fn hash_set_holds_each_code_once() {
    let mut t = native_thread("java/util/HashSet", "<init>", "()V", &[0]);
    let s = t.heap.allocate(Object { fields: Vec::new(), native_fields: Vec::new(), class: chars("java/util/HashSet") });
    t.stackframe.locals[0] = s;
    hash_set_init(&mut t).unwrap();
    let mut heap = std::mem::replace(&mut t.heap, Heap::new());
    for _ in 0..2 {
        let mut t = native_thread("java/util/HashSet", "insert", "(Ljava/lang/Object;)V", &[s, 0]);
        t.heap = heap;
        t.pc_register = 1;
        t.stackframe.operand_stack.push(3);
        hash_set_insert(&mut t).unwrap();
        heap = std::mem::replace(&mut t.heap, Heap::new());
    }
    let mut t = native_thread("java/util/HashSet", "contains", "(Ljava/lang/Object;)Z", &[s, 0]);
    t.heap = heap;
    t.pc_register = 1;
    t.stackframe.operand_stack.push(3);
    hash_set_contains(&mut t).unwrap();
    assert_eq!(returned(&t), 1);
    let heap = std::mem::replace(&mut t.heap, Heap::new());
    let mut t = native_thread("java/util/HashSet", "size", "()I", &[s]);
    t.heap = heap;
    collection_size(&mut t).unwrap();
    assert_eq!(returned(&t), 1);
}

#[test]
fn array_list_adds_at_the_end() {
    let mut t = native_thread("java/util/ArrayList", "<init>", "()V", &[0]);
    let l = t.heap.allocate(Object { fields: Vec::new(), native_fields: Vec::new(), class: chars("java/util/ArrayList") });
    t.stackframe.locals[0] = l;
    array_list_init(&mut t).unwrap();
    let mut heap = std::mem::replace(&mut t.heap, Heap::new());
    for x in [4, 5] {
        let mut t = native_thread("java/util/ArrayList", "add", "(Ljava/lang/Object;)Z", &[l, x]);
        t.heap = heap;
        array_list_add(&mut t).unwrap();
        assert_eq!(returned(&t), 1);
        heap = std::mem::replace(&mut t.heap, Heap::new());
    }
    match &heap.get(l as usize).unwrap().native_fields[0] {
        NativeField::Words(w) => assert_eq!(w, &vec![4, 5]),
        _ => panic!("not a list"),
    }
}

#[test]
fn array_list_sort_needs_its_working_locals() {
    let mut t = native_thread("java/util/ArrayList", "sort", "(Ljava/util/Comparator;)V", &[0, 0]);
    assert!(matches!(array_list_sort(&mut t), Err(Error::Misc(Fault::LocalOutOfRange))));
    let mut t = native_thread("java/util/ArrayList", "sort", "(Ljava/util/Comparator;)V", &[0; 6]);
    t.pc_register = 9;
    assert!(matches!(array_list_sort(&mut t), Err(Error::Misc(Fault::PcOutOfRange))));
}

#[test]
fn wrappers_parse_and_write_numbers() {
    let mut t = native_thread("java/lang/Integer", "parseInt", "(Ljava/lang/String;)I", &[0]);
    t.stackframe.locals[0] = t.heap.allocate_str(chars("-42"));
    wrapper_parse(&mut t, INT).unwrap();
    assert_eq!(returned(&t), (-42i32) as u32);
    for bad in ["2147483648", "", "+", "4x", " 1"] {
        let mut t = native_thread("java/lang/Integer", "parseInt", "(Ljava/lang/String;)I", &[0]);
        t.stackframe.locals[0] = t.heap.allocate_str(chars(bad));
        assert!(matches!(wrapper_parse(&mut t, INT), Err(Error::Misc(Fault::BadText))), "{bad}");
    }
    let mut t = native_thread("java/lang/Byte", "parseByte", "(Ljava/lang/String;)B", &[0]);
    t.stackframe.locals[0] = t.heap.allocate_str(chars("-1"));
    assert!(matches!(wrapper_parse(&mut t, BYTE), Err(Error::Misc(Fault::BadText))));
    let mut t = native_thread("java/lang/Byte", "parseByte", "(Ljava/lang/String;)B", &[0]);
    t.stackframe.locals[0] = t.heap.allocate_str(chars("+255"));
    wrapper_parse(&mut t, BYTE).unwrap();
    assert_eq!(returned(&t), 255);
    let mut t = native_thread("java/lang/Long", "parseLong", "(Ljava/lang/String;)J", &[0]);
    t.stackframe.locals[0] = t.heap.allocate_str(chars("-9223372036854775808"));
    wrapper_parse(&mut t, LONG).unwrap();
    assert_eq!(t.stackframe.operand_stack, vec![0x8000_0000, 0]);
}

#[test]
fn wrapper_objects_hold_their_value() {
    let mut t = native_thread("java/lang/Integer", "valueOf", "(I)Ljava/lang/Integer;", &[(-7i32) as u32, 0]);
    wrapper_value_of(&mut t, INT).unwrap();
    let w = returned(&t);
    assert_eq!(t.heap.get(w as usize).unwrap().fields, vec![(-7i32) as u32]);
    let heap = std::mem::replace(&mut t.heap, Heap::new());
    let mut t = native_thread("java/lang/Integer", "toString", "()Ljava/lang/String;", &[w]);
    t.heap = heap;
    wrapper_to_string(&mut t, INT).unwrap();
    let p = returned(&t);
    assert_eq!(string_text(&t, p), "-7");
    let heap = std::mem::replace(&mut t.heap, Heap::new());
    let mut t = native_thread("java/lang/Integer", "intValue", "()I", &[w]);
    t.heap = heap;
    wrapper_value(&mut t, INT).unwrap();
    assert_eq!(returned(&t), (-7i32) as u32);
}

#[test]
fn host_and_missing_natives_are_told_apart() {
    let mut t = native_thread("java/lang/Math", "sqrt", "(D)D", &[0, 0, 0]);
    assert!(matches!(run_native(&mut t, MATH_SQRT), Ok(NativeOutcome::Host)));
    assert!(matches!(run_native(&mut t, TODO), Err(Error::Misc(Fault::Unimplemented))));
    assert!(matches!(run_native(&mut t, 1000), Err(Error::Misc(Fault::Unimplemented))));
}

#[test]
fn optionals_hold_a_value_or_none() {
    let mut t = native_thread("java/util/Optional", "of", "(Ljava/lang/Object;)Ljava/util/Optional;", &[0]);
    let s = t.heap.allocate_str(chars("v"));
    t.stackframe.locals[0] = s;
    optional_of(&mut t).unwrap();
    let o = returned(&t);
    assert_eq!(t.heap.get(o as usize).unwrap().fields, vec![s]);
    let heap = std::mem::replace(&mut t.heap, Heap::new());
    let mut t = native_thread("java/util/Optional", "isPresent", "()Z", &[o]);
    t.heap = heap;
    optional_check(&mut t, false).unwrap();
    assert_eq!(returned(&t), 1);

    let mut t = native_thread("java/util/Optional", "toString", "()Ljava/lang/String;", &[0]);
    let e = t.heap.allocate(Object { fields: vec![NONE], native_fields: Vec::new(), class: chars("java/util/Optional") });
    t.stackframe.locals[0] = e;
    optional_to_string(&mut t).unwrap();
    let p = returned(&t);
    assert_eq!(string_text(&t, p), "None");
}

#[test]
fn identity_gives_its_argument_and_negate_makes_a_lambda() {
    let mut t = native_thread("java/util/function/Function", "$identity", "(Ljava/lang/Object;)Ljava/lang/Object;", &[NULL]);
    function_identity_step(&mut t).unwrap();
    assert_eq!(returned(&t), NULL);
    let mut t = native_thread("java/util/function/Predicate", "negate", "()Ljava/util/function/Predicate;", &[0x8000]);
    predicate_negate(&mut t).unwrap();
    assert_eq!(returned(&t), HEAP_START);
    assert_eq!(t.heap.len(), 1);
    match &t.heap.get(HEAP_START as usize).unwrap().native_fields[0] {
        NativeField::Lambda(l) => {
            assert_eq!(l.captures, vec![0x8000]);
            assert_eq!(l.method_name, chars("test"));
        },
        _ => panic!("not a lambda"),
    }
}

#[test]
fn get_class_hands_back_one_object_per_class() {
    let mut t = native_thread("java/lang/Object", "getClass", "()Ljava/lang/Class;", &[0]);
    let o = t.heap.allocate(Object { fields: Vec::new(), native_fields: Vec::new(), class: chars("java/util/Random") });
    let o2 = t.heap.allocate(Object { fields: Vec::new(), native_fields: Vec::new(), class: chars("java/util/Random") });
    t.stackframe.locals[0] = o;
    object_get_class(&mut t).unwrap();
    let first = returned(&t);
    let slots = t.heap.len();
    let heap = std::mem::replace(&mut t.heap, Heap::new());
    let mut t = native_thread("java/lang/Object", "getClass", "()Ljava/lang/Class;", &[o2]);
    t.heap = heap;
    object_get_class(&mut t).unwrap();
    assert_eq!(returned(&t), first);
    assert_eq!(t.heap.len(), slots);
}

#[test]
fn array_list_sort_leaves_a_short_list_alone() {
    let mut t = native_thread("java/util/ArrayList", "<init>", "()V", &[0]);
    let l = t.heap.allocate(Object { fields: Vec::new(), native_fields: Vec::new(), class: chars("java/util/ArrayList") });
    t.stackframe.locals[0] = l;
    array_list_init(&mut t).unwrap();
    let heap = std::mem::replace(&mut t.heap, Heap::new());
    let mut t = native_thread("java/util/ArrayList", "sort", "(Ljava/util/Comparator;)V", &[l, 0, 0, 0, 0, 0]);
    t.heap = heap;
    array_list_sort(&mut t).unwrap();
    assert!(t.stack.is_empty());
    assert_eq!(t.pc_register, 5);
}
