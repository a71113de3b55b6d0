//! The descriptors, constants and member records of a Java class.
use vstd::prelude::*;

use crate::attribute::{attributes_view, Attribute, AttributeView};
use crate::code::{Code, CodeView};
use crate::raw_class::{
    bootstraps_view, inner_classes_view, method_names_view, names_view, opt_chars_view,
    placed_fields_view, BootstrapMethod, BootstrapMethodView, Field, FieldView, InnerClass,
    InnerClassView, MethodName, MethodNameView,
};
use crate::text::{chars_eq, copy_chars};

verus! {

/// The access flags of a class, field or method.
#[derive(Clone, Copy)]
pub struct AccessFlags(pub u16);

impl AccessFlags {
    pub const ACC_PUBLIC: u16 = 0x0001;
    pub const ACC_STATIC: u16 = 0x0008;
    pub const ACC_NATIVE: u16 = 0x0100;
    pub const ACC_ABSTRACT: u16 = 0x0400;

    /// Whether the `ACC_STATIC` bit is set.
    pub fn is_static(&self) -> (r: bool)
        ensures
            r == (self.0 & 0x0008 != 0),
    {
        self.0 & 0x0008 != 0
    }

    /// Whether the `ACC_ABSTRACT` bit is set.
    pub fn is_abstract(&self) -> (r: bool)
        ensures
            r == (self.0 & 0x0400 != 0),
    {
        self.0 & 0x0400 != 0
    }
}

/// The class-file version.
#[derive(Clone, Copy)]
pub struct ClassVersion {
    pub minor_version: u16,
    pub major_version: u16,
}

/// The type of a field, a parameter or a return value.
#[derive(Debug)]
pub enum FieldType {
    Byte,
    Char,
    Double,
    Float,
    Int,
    Long,
    /// an internally qualified class name
    Object(Vec<char>),
    Short,
    Boolean,
    Array(Box<FieldType>),
}

/// The mathematical value of a `FieldType`.
pub enum FieldTypeView {
    Byte,
    Char,
    Double,
    Float,
    Int,
    Long,
    Object(Seq<char>),
    Short,
    Boolean,
    Array(Box<FieldTypeView>),
}

impl FieldTypeView {
    /// The number of 32-bit words a value of this type takes.
    pub open spec fn size(self) -> nat {
        match self {
            FieldTypeView::Long | FieldTypeView::Double => 2,
            _ => 1,
        }
    }

    /// Whether values of this type are heap references.
    pub open spec fn is_reference(self) -> bool {
        self is Object || self is Array
    }
}

impl View for FieldType {
    type V = FieldTypeView;

    open spec fn view(&self) -> FieldTypeView
        decreases self,
    {
        match self {
            FieldType::Byte => FieldTypeView::Byte,
            FieldType::Char => FieldTypeView::Char,
            FieldType::Double => FieldTypeView::Double,
            FieldType::Float => FieldTypeView::Float,
            FieldType::Int => FieldTypeView::Int,
            FieldType::Long => FieldTypeView::Long,
            FieldType::Object(c) => FieldTypeView::Object(c@),
            FieldType::Short => FieldTypeView::Short,
            FieldType::Boolean => FieldTypeView::Boolean,
            FieldType::Array(inner) => FieldTypeView::Array(Box::new((**inner).view())),
        }
    }
}

impl FieldType {
    /// The number of 32-bit words a value of this type takes: two for `long`
    /// and `double`, one otherwise.
    pub fn get_size(&self) -> (r: usize)
        ensures
            r == self@.size(),
    {
        match self {
            FieldType::Long | FieldType::Double => 2,
            _ => 1,
        }
    }

    /// Whether values of this type are heap references (objects and arrays).
    pub fn is_reference(&self) -> (r: bool)
        ensures
            r == self@.is_reference(),
    {
        match self {
            FieldType::Object(_) | FieldType::Array(_) => true,
            _ => false,
        }
    }

    /// A copy of this type.
    pub fn copy(&self) -> (r: FieldType)
        ensures
            r@ == self@,
        decreases self,
    {
        match self {
            FieldType::Byte => FieldType::Byte,
            FieldType::Char => FieldType::Char,
            FieldType::Double => FieldType::Double,
            FieldType::Float => FieldType::Float,
            FieldType::Int => FieldType::Int,
            FieldType::Long => FieldType::Long,
            FieldType::Object(c) => FieldType::Object(copy_chars(c)),
            FieldType::Short => FieldType::Short,
            FieldType::Boolean => FieldType::Boolean,
            FieldType::Array(inner) => {
                let i = (**inner).copy();
                FieldType::Array(Box::new(i))
            },
        }
    }

    /// Whether two types are the same.
    pub fn same(&self, other: &FieldType) -> (r: bool)
        ensures
            r == (self@ == other@),
        decreases self,
    {
        match (self, other) {
            (FieldType::Byte, FieldType::Byte) => true,
            (FieldType::Char, FieldType::Char) => true,
            (FieldType::Double, FieldType::Double) => true,
            (FieldType::Float, FieldType::Float) => true,
            (FieldType::Int, FieldType::Int) => true,
            (FieldType::Long, FieldType::Long) => true,
            (FieldType::Short, FieldType::Short) => true,
            (FieldType::Boolean, FieldType::Boolean) => true,
            (FieldType::Object(a), FieldType::Object(b)) => chars_eq(a.as_slice(), b.as_slice()),
            (FieldType::Array(a), FieldType::Array(b)) => (**a).same(&**b),
            _ => false,
        }
    }
}


/// The parameter and return types of a method.
#[derive(Debug)]
pub struct MethodDescriptor {
    /// the number of 32-bit words that the parameters take
    pub parameter_size: usize,
    pub parameters: Vec<FieldType>,
    /// `None` for `void`
    pub return_type: Option<FieldType>,
}

/// The mathematical value of a `MethodDescriptor`.
pub struct MethodDescriptorView {
    pub parameter_size: nat,
    pub parameters: Seq<FieldTypeView>,
    pub return_type: Option<FieldTypeView>,
}

/// The view of each type in a sequence.
pub open spec fn field_types_view(s: Seq<FieldType>) -> Seq<FieldTypeView> {
    s.map_values(|t: FieldType| t@)
}

/// The view of an optional type.
pub open spec fn opt_field_type_view(t: Option<FieldType>) -> Option<FieldTypeView> {
    match t {
        Some(t) => Some(t@),
        None => None,
    }
}

impl View for MethodDescriptor {
    type V = MethodDescriptorView;

    open spec fn view(&self) -> MethodDescriptorView {
        MethodDescriptorView {
            parameter_size: self.parameter_size as nat,
            parameters: field_types_view(self.parameters@),
            return_type: opt_field_type_view(self.return_type),
        }
    }
}

/// A copy of a sequence of types.
pub fn copy_field_types(v: &Vec<FieldType>) -> (r: Vec<FieldType>)
    ensures
        field_types_view(r@) == field_types_view(v@),
{
    let mut r: Vec<FieldType> = Vec::new();
    let mut i: usize = 0;
    while i < v.len()
        invariant
            i <= v@.len(),
            r@.len() == i,
            forall|j: int| 0 <= j < i ==> r@[j]@ == v@[j]@,
        decreases v@.len() - i,
    {
        r.push(v[i].copy());
        i = i + 1;
    }
    assert(field_types_view(r@) =~= field_types_view(v@));
    r
}

/// Whether two sequences of types are the same.
pub fn same_field_types(a: &Vec<FieldType>, b: &Vec<FieldType>) -> (r: bool)
    ensures
        r == (field_types_view(a@) == field_types_view(b@)),
{
    if a.len() != b.len() {
        assert(field_types_view(a@).len() != field_types_view(b@).len());
        return false;
    }
    let mut i: usize = 0;
    while i < a.len()
        invariant
            a@.len() == b@.len(),
            i <= a@.len(),
            forall|j: int| 0 <= j < i ==> a@[j]@ == b@[j]@,
        decreases a@.len() - i,
    {
        if !a[i].same(&b[i]) {
            assert(field_types_view(a@)[i as int] != field_types_view(b@)[i as int]);
            return false;
        }
        i = i + 1;
    }
    assert(field_types_view(a@) =~= field_types_view(b@));
    true
}

impl MethodDescriptor {
    /// A copy of this descriptor.
    pub fn copy(&self) -> (r: MethodDescriptor)
        ensures
            r@ == self@,
    {
        MethodDescriptor {
            parameter_size: self.parameter_size,
            parameters: copy_field_types(&self.parameters),
            return_type: match &self.return_type {
                Some(t) => Some(t.copy()),
                None => None,
            },
        }
    }

    /// Whether two descriptors are the same.
    pub fn same(&self, other: &MethodDescriptor) -> (r: bool)
        ensures
            r == (self@ == other@),
    {
        if self.parameter_size != other.parameter_size {
            return false;
        }
        if !same_field_types(&self.parameters, &other.parameters) {
            return false;
        }
        match (&self.return_type, &other.return_type) {
            (None, None) => true,
            (Some(a), Some(b)) => a.same(b),
            _ => false,
        }
    }
}

/// A reference to a field or method, as a bootstrap method or a constant names it.
pub enum MethodHandle {
    GetField { class: Vec<char>, name: Vec<char>, field_type: FieldType },
    GetStatic { class: Vec<char>, name: Vec<char>, field_type: FieldType },
    PutField { class: Vec<char>, name: Vec<char>, field_type: FieldType },
    PutStatic { class: Vec<char>, name: Vec<char>, field_type: FieldType },
    InvokeVirtual { class: Vec<char>, name: Vec<char>, method_type: MethodDescriptor },
    InvokeStatic { class: Vec<char>, name: Vec<char>, method_type: MethodDescriptor },
    InvokeSpecial { class: Vec<char>, name: Vec<char>, method_type: MethodDescriptor },
    NewInvokeSpecial { class: Vec<char>, name: Vec<char>, method_type: MethodDescriptor },
    InvokeInterface { class: Vec<char>, name: Vec<char>, method_type: MethodDescriptor },
}

/// The mathematical value of a `MethodHandle`.
pub enum MethodHandleView {
    GetField { class: Seq<char>, name: Seq<char>, field_type: FieldTypeView },
    GetStatic { class: Seq<char>, name: Seq<char>, field_type: FieldTypeView },
    PutField { class: Seq<char>, name: Seq<char>, field_type: FieldTypeView },
    PutStatic { class: Seq<char>, name: Seq<char>, field_type: FieldTypeView },
    InvokeVirtual { class: Seq<char>, name: Seq<char>, method_type: MethodDescriptorView },
    InvokeStatic { class: Seq<char>, name: Seq<char>, method_type: MethodDescriptorView },
    InvokeSpecial { class: Seq<char>, name: Seq<char>, method_type: MethodDescriptorView },
    NewInvokeSpecial { class: Seq<char>, name: Seq<char>, method_type: MethodDescriptorView },
    InvokeInterface { class: Seq<char>, name: Seq<char>, method_type: MethodDescriptorView },
}

impl View for MethodHandle {
    type V = MethodHandleView;

    open spec fn view(&self) -> MethodHandleView {
        match self {
            MethodHandle::GetField { class, name, field_type } => MethodHandleView::GetField {
                class: class@,
                name: name@,
                field_type: field_type@,
            },
            MethodHandle::GetStatic { class, name, field_type } => MethodHandleView::GetStatic {
                class: class@,
                name: name@,
                field_type: field_type@,
            },
            MethodHandle::PutField { class, name, field_type } => MethodHandleView::PutField {
                class: class@,
                name: name@,
                field_type: field_type@,
            },
            MethodHandle::PutStatic { class, name, field_type } => MethodHandleView::PutStatic {
                class: class@,
                name: name@,
                field_type: field_type@,
            },
            MethodHandle::InvokeVirtual { class, name, method_type } =>
                MethodHandleView::InvokeVirtual {
                    class: class@,
                    name: name@,
                    method_type: method_type@,
                },
            MethodHandle::InvokeStatic { class, name, method_type } =>
                MethodHandleView::InvokeStatic {
                    class: class@,
                    name: name@,
                    method_type: method_type@,
                },
            MethodHandle::InvokeSpecial { class, name, method_type } =>
                MethodHandleView::InvokeSpecial {
                    class: class@,
                    name: name@,
                    method_type: method_type@,
                },
            MethodHandle::NewInvokeSpecial { class, name, method_type } =>
                MethodHandleView::NewInvokeSpecial {
                    class: class@,
                    name: name@,
                    method_type: method_type@,
                },
            MethodHandle::InvokeInterface { class, name, method_type } =>
                MethodHandleView::InvokeInterface {
                    class: class@,
                    name: name@,
                    method_type: method_type@,
                },
        }
    }
}

impl MethodHandle {
    /// A copy of this handle.
    pub fn copy(&self) -> (r: MethodHandle)
        ensures
            r@ == self@,
    {
        match self {
            MethodHandle::GetField { class, name, field_type } => MethodHandle::GetField {
                class: copy_chars(class),
                name: copy_chars(name),
                field_type: field_type.copy(),
            },
            MethodHandle::GetStatic { class, name, field_type } => MethodHandle::GetStatic {
                class: copy_chars(class),
                name: copy_chars(name),
                field_type: field_type.copy(),
            },
            MethodHandle::PutField { class, name, field_type } => MethodHandle::PutField {
                class: copy_chars(class),
                name: copy_chars(name),
                field_type: field_type.copy(),
            },
            MethodHandle::PutStatic { class, name, field_type } => MethodHandle::PutStatic {
                class: copy_chars(class),
                name: copy_chars(name),
                field_type: field_type.copy(),
            },
            MethodHandle::InvokeVirtual { class, name, method_type } =>
                MethodHandle::InvokeVirtual {
                    class: copy_chars(class),
                    name: copy_chars(name),
                    method_type: method_type.copy(),
                },
            MethodHandle::InvokeStatic { class, name, method_type } =>
                MethodHandle::InvokeStatic {
                    class: copy_chars(class),
                    name: copy_chars(name),
                    method_type: method_type.copy(),
                },
            MethodHandle::InvokeSpecial { class, name, method_type } =>
                MethodHandle::InvokeSpecial {
                    class: copy_chars(class),
                    name: copy_chars(name),
                    method_type: method_type.copy(),
                },
            MethodHandle::NewInvokeSpecial { class, name, method_type } =>
                MethodHandle::NewInvokeSpecial {
                    class: copy_chars(class),
                    name: copy_chars(name),
                    method_type: method_type.copy(),
                },
            MethodHandle::InvokeInterface { class, name, method_type } =>
                MethodHandle::InvokeInterface {
                    class: copy_chars(class),
                    name: copy_chars(name),
                    method_type: method_type.copy(),
                },
        }
    }
}

/// A member of the run-time constant pool. Floating-point constants are held
/// by their IEEE 754 bit patterns.
pub enum Constant {
    String(Vec<char>),
    Int(i32),
    Float(u32),
    Long(i64),
    Double(u64),
    ClassRef(Vec<char>),
    StringRef(Vec<char>),
    FieldRef { class: Vec<char>, name: Vec<char>, field_type: FieldType },
    MethodRef { class: Vec<char>, name: Vec<char>, method_type: MethodDescriptor },
    InterfaceRef { class: Vec<char>, name: Vec<char>, interface_type: MethodDescriptor },
    NameTypeDescriptor { name: Vec<char>, type_descriptor: Vec<char> },
    MethodHandle(MethodHandle),
    MethodType(MethodDescriptor),
    InvokeDynamic { bootstrap_index: u16, method_name: Vec<char>, method_type: MethodDescriptor },
    /// the index taken up by the second half of a `long` or `double`
    Placeholder,
}

/// The mathematical value of a `Constant`.
pub enum ConstantView {
    String(Seq<char>),
    Int(i32),
    Float(u32),
    Long(i64),
    Double(u64),
    ClassRef(Seq<char>),
    StringRef(Seq<char>),
    FieldRef { class: Seq<char>, name: Seq<char>, field_type: FieldTypeView },
    MethodRef { class: Seq<char>, name: Seq<char>, method_type: MethodDescriptorView },
    InterfaceRef { class: Seq<char>, name: Seq<char>, interface_type: MethodDescriptorView },
    NameTypeDescriptor { name: Seq<char>, type_descriptor: Seq<char> },
    MethodHandle(MethodHandleView),
    MethodType(MethodDescriptorView),
    InvokeDynamic {
        bootstrap_index: u16,
        method_name: Seq<char>,
        method_type: MethodDescriptorView,
    },
    Placeholder,
}

impl View for Constant {
    type V = ConstantView;

    open spec fn view(&self) -> ConstantView {
        match self {
            Constant::String(s) => ConstantView::String(s@),
            Constant::Int(i) => ConstantView::Int(*i),
            Constant::Float(f) => ConstantView::Float(*f),
            Constant::Long(l) => ConstantView::Long(*l),
            Constant::Double(d) => ConstantView::Double(*d),
            Constant::ClassRef(s) => ConstantView::ClassRef(s@),
            Constant::StringRef(s) => ConstantView::StringRef(s@),
            Constant::FieldRef { class, name, field_type } => ConstantView::FieldRef {
                class: class@,
                name: name@,
                field_type: field_type@,
            },
            Constant::MethodRef { class, name, method_type } => ConstantView::MethodRef {
                class: class@,
                name: name@,
                method_type: method_type@,
            },
            Constant::InterfaceRef { class, name, interface_type } => ConstantView::InterfaceRef {
                class: class@,
                name: name@,
                interface_type: interface_type@,
            },
            Constant::NameTypeDescriptor { name, type_descriptor } =>
                ConstantView::NameTypeDescriptor { name: name@, type_descriptor: type_descriptor@ },
            Constant::MethodHandle(h) => ConstantView::MethodHandle(h@),
            Constant::MethodType(d) => ConstantView::MethodType(d@),
            Constant::InvokeDynamic { bootstrap_index, method_name, method_type } =>
                ConstantView::InvokeDynamic {
                    bootstrap_index: *bootstrap_index,
                    method_name: method_name@,
                    method_type: method_type@,
                },
            Constant::Placeholder => ConstantView::Placeholder,
        }
    }
}

/// The view of each constant in a pool.
pub open spec fn constants_view(s: Seq<Constant>) -> Seq<ConstantView> {
    s.map_values(|c: Constant| c@)
}

/// The 32-bit words that a constant stores in a static field: one for an
/// `int` or `float`, the high then the low half for a `long` or `double`,
/// and a null reference for anything else.
pub open spec fn constant_words(c: ConstantView) -> Seq<u32> {
    match c {
        ConstantView::Int(i) => seq![i as u32],
        ConstantView::Float(f) => seq![f],
        ConstantView::Long(l) => seq![((l as u64) / 0x1_0000_0000) as u32, ((l as u64) % 0x1_0000_0000) as u32],
        ConstantView::Double(d) => seq![(d / 0x1_0000_0000) as u32, (d % 0x1_0000_0000) as u32],
        _ => seq![0u32],
    }
}

impl Constant {
    /// The words this constant stores in a static field (see `constant_words`).
    pub fn bytes(&self) -> (r: Vec<u32>)
        ensures
            r@ == constant_words(self@),
    {
        match self {
            Constant::Int(i) => vec![*i as u32],
            Constant::Float(f) => vec![*f],
            Constant::Long(l) => {
                let u = *l as u64;
                vec![(u / 0x1_0000_0000) as u32, (u % 0x1_0000_0000) as u32]
            },
            Constant::Double(d) => vec![(*d / 0x1_0000_0000) as u32, (*d % 0x1_0000_0000) as u32],
            _ => vec![0u32],
        }
    }

    /// A copy of this constant.
    pub fn copy(&self) -> (r: Constant)
        ensures
            r@ == self@,
    {
        match self {
            Constant::String(s) => Constant::String(copy_chars(s)),
            Constant::Int(i) => Constant::Int(*i),
            Constant::Float(f) => Constant::Float(*f),
            Constant::Long(l) => Constant::Long(*l),
            Constant::Double(d) => Constant::Double(*d),
            Constant::ClassRef(s) => Constant::ClassRef(copy_chars(s)),
            Constant::StringRef(s) => Constant::StringRef(copy_chars(s)),
            Constant::FieldRef { class, name, field_type } => Constant::FieldRef {
                class: copy_chars(class),
                name: copy_chars(name),
                field_type: field_type.copy(),
            },
            Constant::MethodRef { class, name, method_type } => Constant::MethodRef {
                class: copy_chars(class),
                name: copy_chars(name),
                method_type: method_type.copy(),
            },
            Constant::InterfaceRef { class, name, interface_type } => Constant::InterfaceRef {
                class: copy_chars(class),
                name: copy_chars(name),
                interface_type: interface_type.copy(),
            },
            Constant::NameTypeDescriptor { name, type_descriptor } =>
                Constant::NameTypeDescriptor {
                    name: copy_chars(name),
                    type_descriptor: copy_chars(type_descriptor),
                },
            Constant::MethodHandle(h) => Constant::MethodHandle(h.copy()),
            Constant::MethodType(d) => Constant::MethodType(d.copy()),
            Constant::InvokeDynamic { bootstrap_index, method_name, method_type } =>
                Constant::InvokeDynamic {
                    bootstrap_index: *bootstrap_index,
                    method_name: copy_chars(method_name),
                    method_type: method_type.copy(),
                },
            Constant::Placeholder => Constant::Placeholder,
        }
    }
}

/// A method whose code is prepared for running.
pub struct Method {
    /// the number of 32-bit words of local variables
    pub max_locals: u16,
    pub access_flags: AccessFlags,
    pub name: Vec<char>,
    /// the exceptions the method declares it throws
    pub exceptions: Vec<Vec<char>>,
    pub descriptor: MethodDescriptor,
    pub code: Code,
    /// the signature including generics
    pub signature: Option<Vec<char>>,
    pub attributes: Vec<Attribute>,
}

/// The mathematical value of a `Method`.
pub struct MethodView {
    pub max_locals: u16,
    pub access_flags: u16,
    pub name: Seq<char>,
    pub exceptions: Seq<Seq<char>>,
    pub descriptor: MethodDescriptorView,
    pub code: CodeView,
    pub signature: Option<Seq<char>>,
    pub attributes: Seq<AttributeView>,
}

impl View for Method {
    type V = MethodView;

    open spec fn view(&self) -> MethodView {
        MethodView {
            max_locals: self.max_locals,
            access_flags: self.access_flags.0,
            name: self.name@,
            exceptions: names_view(self.exceptions@),
            descriptor: self.descriptor@,
            code: self.code@,
            signature: opt_chars_view(self.signature),
            attributes: attributes_view(self.attributes@),
        }
    }
}

/// A loaded class, ready for running. What changes while the program runs
/// (whether its initializer ran, its static fields) is kept by the class
/// area beside it.
pub struct Class {
    pub version: ClassVersion,
    /// the run-time constant pool
    pub constants: Vec<Constant>,
    pub access: AccessFlags,
    /// the class's name
    pub this: Vec<char>,
    /// the superclass's name
    pub super_class: Vec<char>,
    /// the names of the interfaces
    pub interfaces: Vec<Vec<char>>,
    /// the number of 32-bit words of an instance's fields
    pub field_size: usize,
    /// the instance fields, each with its position among an instance's words
    pub fields: Vec<(Field, usize)>,
    /// the words of a new instance
    pub initial_fields: Vec<u32>,
    /// the initial words of the static fields
    pub static_data: Vec<u32>,
    /// the static fields, each with its position among the static words
    pub statics: Vec<(Field, usize)>,
    /// the names of the methods, the class's own first, then those inherited
    pub methods: Vec<MethodName>,
    pub bootstrap_methods: Vec<BootstrapMethod>,
    pub source_file: Option<Vec<char>>,
    /// the signature including generics
    pub signature: Option<Vec<char>>,
    pub inner_classes: Vec<InnerClass>,
    pub attributes: Vec<Attribute>,
}

/// The mathematical value of a `Class`.
pub struct ClassView {
    pub minor_version: u16,
    pub major_version: u16,
    pub constants: Seq<ConstantView>,
    pub access: u16,
    pub this: Seq<char>,
    pub super_class: Seq<char>,
    pub interfaces: Seq<Seq<char>>,
    pub field_size: nat,
    pub fields: Seq<(FieldView, usize)>,
    pub initial_fields: Seq<u32>,
    pub static_data: Seq<u32>,
    pub statics: Seq<(FieldView, usize)>,
    pub methods: Seq<MethodNameView>,
    pub bootstrap_methods: Seq<BootstrapMethodView>,
    pub source_file: Option<Seq<char>>,
    pub signature: Option<Seq<char>>,
    pub inner_classes: Seq<InnerClassView>,
    pub attributes: Seq<AttributeView>,
}

impl View for Class {
    type V = ClassView;

    open spec fn view(&self) -> ClassView {
        ClassView {
            minor_version: self.version.minor_version,
            major_version: self.version.major_version,
            constants: constants_view(self.constants@),
            access: self.access.0,
            this: self.this@,
            super_class: self.super_class@,
            interfaces: names_view(self.interfaces@),
            field_size: self.field_size as nat,
            fields: placed_fields_view(self.fields@),
            initial_fields: self.initial_fields@,
            static_data: self.static_data@,
            statics: placed_fields_view(self.statics@),
            methods: method_names_view(self.methods@),
            bootstrap_methods: bootstraps_view(self.bootstrap_methods@),
            source_file: opt_chars_view(self.source_file),
            signature: opt_chars_view(self.signature),
            inner_classes: inner_classes_view(self.inner_classes@),
            attributes: attributes_view(self.attributes@),
        }
    }
}

} // verus!
