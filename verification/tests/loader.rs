use jvmrs::class::{Constant, FieldType};
use jvmrs::class_loader::{
    load_class, parse_field_type, parse_java_string, parse_method_descriptor, LoadError,
};
use jvmrs::data::{WorkingClassArea, WorkingMethodArea};
use jvmrs::instruction::{parse_instruction, Cmp, Instruction, Op};

fn chars(s: &str) -> Vec<char> {
    s.chars().collect()
}

fn utf8(out: &mut Vec<u8>, s: &str) {
    out.push(1);
    out.extend_from_slice(&(s.len() as u16).to_be_bytes());
    out.extend_from_slice(s.as_bytes());
}

/// A class `A` extending `java/lang/Object` with one static method
/// `f()I` whose code is `iconst_2; iconst_3; iadd; ireturn`.
pub fn small_class() -> Vec<u8> {
    let mut b = vec![0xCA, 0xFE, 0xBA, 0xBE, 0, 0, 0, 52];
    b.extend_from_slice(&8u16.to_be_bytes());
    utf8(&mut b, "A");
    b.extend_from_slice(&[7, 0, 1]);
    utf8(&mut b, "java/lang/Object");
    b.extend_from_slice(&[7, 0, 3]);
    utf8(&mut b, "f");
    utf8(&mut b, "()I");
    utf8(&mut b, "Code");
    b.extend_from_slice(&[0x00, 0x21, 0, 2, 0, 4, 0, 0, 0, 0]);
    b.extend_from_slice(&[0, 1, 0x00, 0x09, 0, 5, 0, 6, 0, 1, 0, 7]);
    b.extend_from_slice(&16u32.to_be_bytes());
    b.extend_from_slice(&[0, 2, 0, 0, 0, 0, 0, 4, 0x05, 0x06, 0x60, 0xAC, 0, 0, 0, 0]);
    b.extend_from_slice(&[0, 0]);
    b
}

#[test]
fn java_string_ascii_and_two_byte() {
    assert_eq!(parse_java_string(b"hi").unwrap(), vec!['h', 'i']);
    assert_eq!(parse_java_string(&[0xC3, 0xA9]).unwrap(), vec!['\u{e9}']);
    assert!(matches!(parse_java_string(&[0]), Err(LoadError::ZeroByte)));
    assert!(matches!(parse_java_string(&[0xC3]), Err(LoadError::UnexpectedEndOfString)));
}

#[test]
fn field_types_and_descriptors() {
    let mut pos = 0;
    let t = parse_field_type(&chars("[Ljava/lang/String;"), &mut pos).unwrap();
    assert_eq!(pos, 19);
    assert!(matches!(t, FieldType::Array(inner) if matches!(*inner, FieldType::Object(ref c) if *c == chars("java/lang/String"))));
    let d = parse_method_descriptor(&chars("(IJ[D)V")).unwrap();
    assert_eq!(d.parameter_size, 4);
    assert_eq!(d.parameters.len(), 3);
    assert!(d.return_type.is_none());
    assert!(matches!(parse_method_descriptor(&chars("I)V")), Err(LoadError::ExpectedOpenParen)));
}

#[test]
fn decodes_instructions() {
    let constants: Vec<Constant> = vec![Constant::Int(7)];
    let code = [0x10, 0xFF, 0x60, 0xA7, 0xFF, 0xFD, 0x12, 0x01, 0xA0, 0x00, 0x04];
    let mut pos = 0;
    assert!(matches!(parse_instruction(&constants, &code, &mut pos), Ok(Instruction::Push1(0xFFFF_FFFF))));
    assert_eq!(pos, 2);
    assert!(matches!(parse_instruction(&constants, &code, &mut pos), Ok(Instruction::IOp(Op::Add))));
    assert!(matches!(parse_instruction(&constants, &code, &mut pos), Ok(Instruction::Goto(-3))));
    assert!(matches!(parse_instruction(&constants, &code, &mut pos), Ok(Instruction::Push1(7))));
    assert!(matches!(parse_instruction(&constants, &code, &mut pos), Ok(Instruction::ICmp(Cmp::Ne, 4))));
    assert_eq!(pos, code.len());
    assert!(matches!(parse_instruction(&constants, &code, &mut pos), Err(LoadError::UnexpectedEof)));
    let mut p2 = 0;
    assert!(matches!(parse_instruction(&constants, &[0xAA], &mut p2), Err(LoadError::UnsupportedOpcode(0xAA))));
}

#[test]
fn push_2_splits_words() {
    assert!(matches!(Instruction::push_2(0x0000_0001_0000_0002), Instruction::Push2(1, 2)));
}

#[test]
fn loads_a_small_class() {
    let mut methods = WorkingMethodArea::new();
    let class = load_class(&mut methods, &small_class()).unwrap();
    assert_eq!(class.this, chars("A"));
    assert_eq!(class.super_class, chars("java/lang/Object"));
    assert_eq!(class.methods.len(), 1);
    assert_eq!(methods.len(), 1);
    let mut classes = WorkingClassArea::new();
    classes.push(class);
    let shared = classes.to_shared().unwrap();
    let prepared = methods.to_shared(&shared).unwrap();
    let (c, m) = prepared.search(&chars("A"), &chars("f"), &parse_method_descriptor(&chars("()I")).unwrap()).unwrap();
    assert_eq!(c.this, chars("A"));
    let code = m.code.as_bytecode().unwrap();
    assert_eq!(code.code.len(), 4);
}

#[test]
fn refuses_a_bad_header() {
    let mut methods = WorkingMethodArea::new();
    let mut bytes = small_class();
    bytes[0] = 0;
    assert!(matches!(load_class(&mut methods, &bytes), Err(LoadError::InvalidHeader)));
    assert_eq!(methods.len(), 0);
    let mut methods = WorkingMethodArea::new();
    assert!(matches!(load_class(&mut methods, &small_class()[..20]), Err(_)));
    assert_eq!(methods.len(), 0);
}

#[test]
fn java_string_three_byte_and_surrogate_pairs() {
    // U+D55C in the three-byte form, lead byte 0xED
    assert_eq!(parse_java_string(&[0xED, 0x95, 0x9C]).unwrap(), vec!['\u{D55C}']);
    // the surrogate pair D840 DC00
    assert_eq!(parse_java_string(&[0xED, 0xA1, 0x80, 0xED, 0xB0, 0x80]).unwrap(), vec!['\u{20000}']);
    // the surrogate pair D83D DE00
    assert_eq!(parse_java_string(&[0xED, 0xA0, 0xBD, 0xED, 0xB8, 0x80]).unwrap(), vec!['\u{1F600}']);
    // a lone high surrogate is no character
    assert!(matches!(parse_java_string(&[0xED, 0xA0, 0x80]), Err(LoadError::InvalidCharacterCode)));
}

#[test]
fn ifnull_decodes_with_its_flag() {
    let no_constants: Vec<Constant> = Vec::new();
    let mut pos: usize = 0;
    let i = parse_instruction(&no_constants, &[0xC6, 0x00, 0x07], &mut pos).unwrap();
    assert!(matches!(i, Instruction::IfNull(true, 7)));
    assert_eq!(pos, 3);
    let mut pos: usize = 0;
    let i = parse_instruction(&no_constants, &[0xC7, 0x00, 0x07], &mut pos).unwrap();
    assert!(matches!(i, Instruction::IfNull(false, 7)));
}
