//! Classes and methods as they are read from class files, before the
//! methods' code is prepared.
use vstd::prelude::*;

use crate::attribute::{attributes_view, Attribute, AttributeView};
use crate::class::{
    constants_view, AccessFlags, ClassVersion, Constant, ConstantView, FieldType, FieldTypeView,
    MethodDescriptor, MethodDescriptorView, MethodHandle, MethodHandleView,
};
use crate::class::{Class, ClassView, Method, MethodView};
use crate::class_loader::LoadError;
use crate::code::{Code, CodeView};
use crate::data::{lookup_entry, SharedClassArea, SharedClassAreaView, WorkingClassArea};
use crate::prepare::{parse_code_attribute, spec_code_attribute};
use crate::text::{chars_eq, copy_chars};

verus! {

/// The view of a name that may be absent.
pub open spec fn opt_chars_view(o: Option<Vec<char>>) -> Option<Seq<char>> {
    match o {
        Some(v) => Some(v@),
        None => None,
    }
}

/// The view of each name of a list.
pub open spec fn names_view(s: Seq<Vec<char>>) -> Seq<Seq<char>> {
    s.map_values(|v: Vec<char>| v@)
}

/// A field of a class.
pub struct Field {
    pub access_flags: AccessFlags,
    pub name: Vec<char>,
    pub descriptor: FieldType,
    /// the value of a static field's `ConstantValue` attribute
    pub constant_value: Option<Constant>,
    pub signature: Option<Vec<char>>,
    pub attributes: Vec<Attribute>,
}

/// The mathematical value of a `Field`.
pub struct FieldView {
    pub access_flags: u16,
    pub name: Seq<char>,
    pub descriptor: FieldTypeView,
    pub constant_value: Option<ConstantView>,
    pub signature: Option<Seq<char>>,
    pub attributes: Seq<AttributeView>,
}

impl View for Field {
    type V = FieldView;

    open spec fn view(&self) -> FieldView {
        FieldView {
            access_flags: self.access_flags.0,
            name: self.name@,
            descriptor: self.descriptor@,
            constant_value: match &self.constant_value {
                Some(c) => Some(c@),
                None => None,
            },
            signature: opt_chars_view(self.signature),
            attributes: attributes_view(self.attributes@),
        }
    }
}

/// The view of each field of a list, with its position in the object or
/// static data.
pub open spec fn placed_fields_view(s: Seq<(Field, usize)>) -> Seq<(FieldView, usize)> {
    s.map_values(|f: (Field, usize)| (f.0@, f.1))
}

/// A bootstrap method of `invokedynamic`: a method handle and its static arguments.
pub struct BootstrapMethod {
    pub method: MethodHandle,
    pub args: Vec<Constant>,
}

/// The mathematical value of a `BootstrapMethod`.
pub struct BootstrapMethodView {
    pub method: MethodHandleView,
    pub args: Seq<ConstantView>,
}

impl View for BootstrapMethod {
    type V = BootstrapMethodView;

    open spec fn view(&self) -> BootstrapMethodView {
        BootstrapMethodView { method: self.method@, args: constants_view(self.args@) }
    }
}

/// The view of each bootstrap method of a list.
pub open spec fn bootstraps_view(s: Seq<BootstrapMethod>) -> Seq<BootstrapMethodView> {
    s.map_values(|b: BootstrapMethod| b@)
}

/// An entry of the `InnerClasses` attribute.
pub struct InnerClass {
    pub this: Vec<char>,
    pub outer: Option<Vec<char>>,
    pub name: Option<Vec<char>>,
    pub flags: AccessFlags,
}

/// The mathematical value of an `InnerClass`.
pub struct InnerClassView {
    pub this: Seq<char>,
    pub outer: Option<Seq<char>>,
    pub name: Option<Seq<char>>,
    pub flags: u16,
}

impl View for InnerClass {
    type V = InnerClassView;

    open spec fn view(&self) -> InnerClassView {
        InnerClassView {
            this: self.this@,
            outer: opt_chars_view(self.outer),
            name: opt_chars_view(self.name),
            flags: self.flags.0,
        }
    }
}

/// The view of each inner class of a list.
pub open spec fn inner_classes_view(s: Seq<InnerClass>) -> Seq<InnerClassView> {
    s.map_values(|c: InnerClass| c@)
}

/// The full name of a method: its class, its name and its descriptor.
pub struct MethodName {
    pub class: Vec<char>,
    pub name: Vec<char>,
    pub descriptor: MethodDescriptor,
}

/// The mathematical value of a `MethodName`.
pub struct MethodNameView {
    pub class: Seq<char>,
    pub name: Seq<char>,
    pub descriptor: MethodDescriptorView,
}

impl View for MethodName {
    type V = MethodNameView;

    open spec fn view(&self) -> MethodNameView {
        MethodNameView { class: self.class@, name: self.name@, descriptor: self.descriptor@ }
    }
}

impl MethodName {
    /// A copy of this name.
    pub fn copy(&self) -> (r: MethodName)
        ensures
            r@ == self@,
    {
        MethodName {
            class: copy_chars(&self.class),
            name: copy_chars(&self.name),
            descriptor: self.descriptor.copy(),
        }
    }
}

/// The view of each method name of a list.
pub open spec fn method_names_view(s: Seq<MethodName>) -> Seq<MethodNameView> {
    s.map_values(|m: MethodName| m@)
}

/// The code of a method as read: the bytes of its `Code` attribute, a native
/// method (an index into the host's table of native implementations), or none.
pub enum RawCode {
    Code(Vec<u8>),
    Native(u32),
    Abstract,
}

/// The mathematical value of a `RawCode`.
pub enum RawCodeView {
    Code(Seq<u8>),
    Native(u32),
    Abstract,
}

impl View for RawCode {
    type V = RawCodeView;

    open spec fn view(&self) -> RawCodeView {
        match self {
            RawCode::Code(b) => RawCodeView::Code(b@),
            RawCode::Native(n) => RawCodeView::Native(*n),
            RawCode::Abstract => RawCodeView::Abstract,
        }
    }
}

impl RawCode {
    /// Code implemented by the host's native method number `id`.
    pub fn native(id: u32) -> (r: RawCode)
        ensures
            r@ == RawCodeView::Native(id),
    {
        RawCode::Native(id)
    }
}

/// A method as read from a class file.
pub struct RawMethod {
    pub access_flags: AccessFlags,
    pub name: Vec<char>,
    pub exceptions: Vec<Vec<char>>,
    pub descriptor: MethodDescriptor,
    pub code: RawCode,
    pub signature: Option<Vec<char>>,
    pub attributes: Vec<Attribute>,
}

/// The mathematical value of a `RawMethod`.
pub struct RawMethodView {
    pub access_flags: u16,
    pub name: Seq<char>,
    pub exceptions: Seq<Seq<char>>,
    pub descriptor: MethodDescriptorView,
    pub code: RawCodeView,
    pub signature: Option<Seq<char>>,
    pub attributes: Seq<AttributeView>,
}

impl View for RawMethod {
    type V = RawMethodView;

    open spec fn view(&self) -> RawMethodView {
        RawMethodView {
            access_flags: self.access_flags.0,
            name: self.name@,
            exceptions: names_view(self.exceptions@),
            descriptor: self.descriptor@,
            code: self.code@,
            signature: opt_chars_view(self.signature),
            attributes: attributes_view(self.attributes@),
        }
    }
}

/// The view of each raw method of a list.
pub open spec fn raw_methods_view(s: Seq<RawMethod>) -> Seq<RawMethodView> {
    s.map_values(|m: RawMethod| m@)
}

/// The method `m` with its code prepared for running, given the class area
/// and the constant pool of its class. Abstract and native methods get as many
/// local words as their parameters take (cut to 16 bits).
pub open spec fn spec_cook(area: SharedClassAreaView, cs: Seq<ConstantView>, m: RawMethodView) -> Result<
    MethodView,
    LoadError,
> {
    let code: Result<(CodeView, u16), LoadError> = match m.code {
        RawCodeView::Abstract => Ok((CodeView::Abstract, m.descriptor.parameter_size as u16)),
        RawCodeView::Native(id) => Ok((CodeView::Native(id), m.descriptor.parameter_size as u16)),
        RawCodeView::Code(b) => match spec_code_attribute(area, cs, b) {
            Ok((bc, ml)) => Ok((CodeView::Code(bc), ml)),
            Err(e) => Err(e),
        },
    };
    match code {
        Ok((c, max_locals)) => Ok(
            MethodView {
                max_locals,
                access_flags: m.access_flags,
                name: m.name,
                exceptions: m.exceptions,
                descriptor: m.descriptor,
                code: c,
                signature: m.signature,
                attributes: m.attributes,
            },
        ),
        Err(e) => Err(e),
    }
}

impl RawMethod {
    /// Prepares this method's code for running (see `spec_cook`).
    pub fn cook(self, class_area: &SharedClassArea, constants: &[Constant]) -> (r: Result<
        Method,
        LoadError,
    >)
        ensures
            match spec_cook(class_area@, constants_view(constants@), self@) {
                Ok(m) => r matches Ok(v) && v@ == m,
                Err(e) => r matches Err(e2) && e2 == e,
            },
    {
        #[verifier::truncate]
        let params = self.descriptor.parameter_size as u16;
        let (code, max_locals) = match &self.code {
            RawCode::Abstract => (Code::Abstract, params),
            RawCode::Native(id) => (Code::Native(*id), params),
            RawCode::Code(bytes) => {
                let (bytecode, max_locals) = parse_code_attribute(
                    class_area,
                    constants,
                    bytes.as_slice(),
                )?;
                (Code::Code(bytecode), max_locals)
            },
        };
        Ok(
            Method {
                max_locals,
                access_flags: self.access_flags,
                name: self.name,
                exceptions: self.exceptions,
                descriptor: self.descriptor,
                code,
                signature: self.signature,
                attributes: self.attributes,
            },
        )
    }

    /// The full name of this method in the class `class`.
    pub fn name(&self, class: Vec<char>) -> (r: MethodName)
        ensures
            r@ == (MethodNameView { class: class@, name: self.name@, descriptor: self.descriptor@ }),
    {
        MethodName { class, name: copy_chars(&self.name), descriptor: self.descriptor.copy() }
    }
}

/// A class as read from a class file.
pub struct RawClass {
    pub version: ClassVersion,
    pub constants: Vec<Constant>,
    pub access: AccessFlags,
    pub this: Vec<char>,
    pub super_class: Vec<char>,
    pub interfaces: Vec<Vec<char>>,
    /// the number of 32-bit words of an instance's fields
    pub field_size: usize,
    /// the instance fields, each with its position among an instance's words
    pub fields: Vec<(Field, usize)>,
    /// the initial words of the static fields
    pub static_data: Vec<u32>,
    /// the static fields, each with its position in `static_data`
    pub statics: Vec<(Field, usize)>,
    /// the names of the methods the class declares
    pub methods: Vec<MethodName>,
    pub bootstrap_methods: Vec<BootstrapMethod>,
    pub source_file: Option<Vec<char>>,
    pub signature: Option<Vec<char>>,
    pub inner_classes: Vec<InnerClass>,
    pub attributes: Vec<Attribute>,
}

/// The mathematical value of a `RawClass`.
pub struct RawClassView {
    pub minor_version: u16,
    pub major_version: u16,
    pub constants: Seq<ConstantView>,
    pub access: u16,
    pub this: Seq<char>,
    pub super_class: Seq<char>,
    pub interfaces: Seq<Seq<char>>,
    pub field_size: nat,
    pub fields: Seq<(FieldView, usize)>,
    pub static_data: Seq<u32>,
    pub statics: Seq<(FieldView, usize)>,
    pub methods: Seq<MethodNameView>,
    pub bootstrap_methods: Seq<BootstrapMethodView>,
    pub source_file: Option<Seq<char>>,
    pub signature: Option<Seq<char>>,
    pub inner_classes: Seq<InnerClassView>,
    pub attributes: Seq<AttributeView>,
}

impl View for RawClass {
    type V = RawClassView;

    open spec fn view(&self) -> RawClassView {
        RawClassView {
            minor_version: self.version.minor_version,
            major_version: self.version.major_version,
            constants: constants_view(self.constants@),
            access: self.access.0,
            this: self.this@,
            super_class: self.super_class@,
            interfaces: names_view(self.interfaces@),
            field_size: self.field_size as nat,
            fields: placed_fields_view(self.fields@),
            static_data: self.static_data@,
            statics: placed_fields_view(self.statics@),
            methods: method_names_view(self.methods@),
            bootstrap_methods: bootstraps_view(self.bootstrap_methods@),
            source_file: opt_chars_view(self.source_file),
            signature: opt_chars_view(self.signature),
            inner_classes: inner_classes_view(self.inner_classes@),
            attributes: attributes_view(self.attributes@),
        }
    }
}

/// The view of an empty class with the given access, name and superclass.
pub open spec fn new_class_view(access: u16, this: Seq<char>, super_class: Seq<char>) -> RawClassView {
    RawClassView {
        minor_version: 0,
        major_version: 0,
        constants: seq![],
        access,
        this,
        super_class,
        interfaces: seq![],
        field_size: 0,
        fields: seq![],
        static_data: seq![],
        statics: seq![],
        methods: seq![],
        bootstrap_methods: seq![],
        source_file: None,
        signature: None,
        inner_classes: seq![],
        attributes: seq![],
    }
}

impl RawClass {
    /// An empty class with the given access, name and superclass.
    pub fn new(access: AccessFlags, this: Vec<char>, super_class: Vec<char>) -> (r: RawClass)
        ensures
            r@ == new_class_view(access.0, this@, super_class@),
            r.access == access,
            r.this@ == this@,
            r.super_class@ == super_class@,
            r.version == (ClassVersion { minor_version: 0, major_version: 0 }),
            r.constants@.len() == 0,
            r.interfaces@.len() == 0,
            r.field_size == 0,
            r.fields@.len() == 0,
            r.static_data@.len() == 0,
            r.statics@.len() == 0,
            r.methods@.len() == 0,
            r.bootstrap_methods@.len() == 0,
            r.source_file is None,
            r.signature is None,
            r.inner_classes@.len() == 0,
            r.attributes@.len() == 0,
    {
        let r = RawClass {
            version: ClassVersion { minor_version: 0, major_version: 0 },
            constants: Vec::new(),
            access,
            this,
            super_class,
            interfaces: Vec::new(),
            field_size: 0,
            fields: Vec::new(),
            static_data: Vec::new(),
            statics: Vec::new(),
            methods: Vec::new(),
            bootstrap_methods: Vec::new(),
            signature: None,
            source_file: None,
            inner_classes: Vec::new(),
            attributes: Vec::new(),
        };
        assert(r@.constants =~= seq![]);
        assert(r@.interfaces =~= seq![]);
        assert(r@.fields =~= seq![]);
        assert(r@.static_data =~= seq![]);
        assert(r@.statics =~= seq![]);
        assert(r@.methods =~= seq![]);
        assert(r@.bootstrap_methods =~= seq![]);
        assert(r@.inner_classes =~= seq![]);
        assert(r@.attributes =~= seq![]);
        r
    }
}

/// The name of the root of the class hierarchy, `java/lang/Object`.
pub open spec fn object_name() -> Seq<char> {
    seq!['j', 'a', 'v', 'a', '/', 'l', 'a', 'n', 'g', '/', 'O', 'b', 'j', 'e', 'c', 't']
}

/// The name `java/lang/Object`.
pub fn object_class_name() -> (r: Vec<char>)
    ensures
        r@ == object_name(),
{
    let r = vec!['j', 'a', 'v', 'a', '/', 'l', 'a', 'n', 'g', '/', 'O', 'b', 'j', 'e', 'c', 't'];
    assert(r@ =~= object_name());
    r
}

/// Whether `ms` has a method of `m`'s name and class.
pub open spec fn has_method(ms: Seq<MethodNameView>, m: MethodNameView) -> bool {
    exists|j: int| 0 <= j < ms.len() && ms[j].name == m.name && ms[j].class == m.class
}

/// `ms` with each of `extra` added, in order, unless a method of its name
/// and class is already there.
pub open spec fn add_methods(ms: Seq<MethodNameView>, extra: Seq<MethodNameView>) -> Seq<
    MethodNameView,
>
    decreases extra.len(),
{
    if extra.len() == 0 {
        ms
    } else {
        let before = add_methods(ms, extra.drop_last());
        if has_method(before, extra.last()) {
            before
        } else {
            before.push(extra.last())
        }
    }
}

/// The methods `ms` together with those of `class` and its superclasses,
/// up to `java/lang/Object` (whose own methods are not added), looking
/// classes up in `area`; at most `fuel` classes are visited.
pub open spec fn spec_inherit(
    area: Seq<(Seq<char>, RawClassView)>,
    ms: Seq<MethodNameView>,
    class: Seq<char>,
    fuel: nat,
) -> Result<Seq<MethodNameView>, LoadError>
    decreases fuel,
{
    if class == object_name() {
        Ok(ms)
    } else if fuel == 0 {
        Err(LoadError::CyclicSuperclass)
    } else {
        match lookup_entry(area, class) {
            None => Err(LoadError::ClassNotFound),
            Some(c) => spec_inherit(area, add_methods(ms, c.methods), c.super_class, (fuel - 1) as nat),
        }
    }
}

/// The methods of the class `raw`: its own, then those it inherits. More
/// steps up the hierarchy than there are classes in the area can only come
/// from a cycle, and are refused.
pub open spec fn spec_class_methods(area: Seq<(Seq<char>, RawClassView)>, raw: RawClassView) -> Result<
    Seq<MethodNameView>,
    LoadError,
> {
    spec_inherit(area, raw.methods, raw.super_class, area.len())
}

/// The class `raw`, ready for running, given its methods `ms`.
pub open spec fn class_with_methods(raw: RawClassView, ms: Seq<MethodNameView>) -> ClassView {
    ClassView {
        minor_version: raw.minor_version,
        major_version: raw.major_version,
        constants: raw.constants,
        access: raw.access,
        this: raw.this,
        super_class: raw.super_class,
        interfaces: raw.interfaces,
        field_size: raw.field_size,
        fields: raw.fields,
        initial_fields: Seq::new(raw.field_size, |i: int| 0u32),
        static_data: raw.static_data,
        statics: raw.statics,
        methods: ms,
        bootstrap_methods: raw.bootstrap_methods,
        source_file: raw.source_file,
        signature: raw.signature,
        inner_classes: raw.inner_classes,
        attributes: raw.attributes,
    }
}

/// The class `raw` ready for running, with the methods it inherits through
/// the classes of `area`.
pub open spec fn spec_to_class(area: Seq<(Seq<char>, RawClassView)>, raw: RawClassView) -> Result<
    ClassView,
    LoadError,
> {
    match spec_class_methods(area, raw) {
        Ok(ms) => Ok(class_with_methods(raw, ms)),
        Err(e) => Err(e),
    }
}

/// Whether `ms` has a method of `m`'s name and class.
fn contains_method(ms: &Vec<MethodName>, m: &MethodName) -> (r: bool)
    ensures
        r == has_method(method_names_view(ms@), m@),
{
    let ghost v = method_names_view(ms@);
    let mut i: usize = 0;
    while i < ms.len()
        invariant
            v == method_names_view(ms@),
            i <= ms@.len(),
            forall|j: int| 0 <= j < i ==> !(v[j].name == m@.name && v[j].class == m@.class),
        decreases ms@.len() - i,
    {
        assert(v[i as int] == ms@[i as int]@);
        if chars_eq(ms[i].name.as_slice(), m.name.as_slice()) && chars_eq(
            ms[i].class.as_slice(),
            m.class.as_slice(),
        ) {
            return true;
        }
        i = i + 1;
    }
    false
}

/// Adds copies of each of `extra` to `ms` unless a method of its name and
/// class is already there.
fn add_methods_to(ms: &mut Vec<MethodName>, extra: &Vec<MethodName>)
    ensures
        method_names_view(final(ms)@) == add_methods(method_names_view(old(ms)@), method_names_view(extra@)),
{
    let ghost start = method_names_view(ms@);
    let ghost ev = method_names_view(extra@);
    let mut i: usize = 0;
    while i < extra.len()
        invariant
            ev == method_names_view(extra@),
            i <= extra@.len(),
            method_names_view(ms@) == add_methods(start, ev.subrange(0, i as int)),
        decreases extra@.len() - i,
    {
        proof {
            assert(ev.subrange(0, i + 1).drop_last() =~= ev.subrange(0, i as int));
            assert(ev.subrange(0, i + 1).last() == extra@[i as int]@);
        }
        if !contains_method(ms, &extra[i]) {
            let ghost before = ms@;
            ms.push(extra[i].copy());
            assert(method_names_view(ms@) =~= method_names_view(before).push(extra@[i as int]@));
        }
        i = i + 1;
    }
    assert(ev.subrange(0, ev.len() as int) =~= ev);
}

impl RawClass {
    /// The methods of this class: its own, then those it inherits (see
    /// `spec_class_methods`).
    pub fn class_methods(&self, class_area: &WorkingClassArea) -> (r: Result<Vec<MethodName>, LoadError>)
        ensures
            match spec_class_methods(class_area@, self@) {
                Ok(ms) => r matches Ok(v) && method_names_view(v@) == ms,
                Err(e) => r matches Err(e2) && e2 == e,
            },
    {
        let ghost area = class_area@;
        let mut methods: Vec<MethodName> = Vec::new();
        let mut i: usize = 0;
        while i < self.methods.len()
            invariant
                i <= self.methods@.len(),
                methods@.len() == i,
                forall|j: int| 0 <= j < i ==> (#[trigger] methods@[j])@ == self.methods@[j]@,
            decreases self.methods@.len() - i,
        {
            methods.push(self.methods[i].copy());
            i = i + 1;
        }
        assert(method_names_view(methods@) =~= method_names_view(self.methods@));
        let mut class = copy_chars(&self.super_class);
        let object = object_class_name();
        let mut fuel: usize = class_area.len();
        while !chars_eq(class.as_slice(), object.as_slice())
            invariant
                area == class_area@,
                object@ == object_name(),
                fuel <= area.len(),
                spec_class_methods(area, self@) == spec_inherit(
                    area,
                    method_names_view(methods@),
                    class@,
                    fuel as nat,
                ),
            decreases fuel,
        {
            if fuel == 0 {
                return Err(LoadError::CyclicSuperclass);
            }
            let class_ref = match class_area.search(class.as_slice()) {
                Some(c) => c,
                None => {
                    return Err(LoadError::ClassNotFound);
                },
            };
            add_methods_to(&mut methods, &class_ref.methods);
            class = copy_chars(&class_ref.super_class);
            fuel = fuel - 1;
        }
        Ok(methods)
    }

    /// This class ready for running, with the methods it inherits through
    /// the classes of `class_area` (see `spec_to_class`).
    pub fn to_class(self, class_area: &WorkingClassArea) -> (r: Result<Class, LoadError>)
        ensures
            match spec_to_class(class_area@, self@) {
                Ok(c) => r matches Ok(v) && v@ == c,
                Err(e) => r matches Err(e2) && e2 == e,
            },
    {
        let methods = self.class_methods(class_area)?;
        Ok(self.with_methods(methods))
    }

    /// This class ready for running, with the methods `methods`.
    pub fn with_methods(self, methods: Vec<MethodName>) -> (r: Class)
        ensures
            r@ == class_with_methods(self@, method_names_view(methods@)),
    {
        let mut initial_fields: Vec<u32> = Vec::new();
        let mut i: usize = 0;
        while i < self.field_size
            invariant
                i <= self.field_size,
                initial_fields@ =~= Seq::new(i as nat, |j: int| 0u32),
            decreases self.field_size - i,
        {
            initial_fields.push(0);
            i = i + 1;
        }
        Class {
            version: self.version,
            constants: self.constants,
            access: self.access,
            this: self.this,
            super_class: self.super_class,
            interfaces: self.interfaces,
            field_size: self.field_size,
            fields: self.fields,
            initial_fields,
            static_data: self.static_data,
            statics: self.statics,
            methods,
            bootstrap_methods: self.bootstrap_methods,
            source_file: self.source_file,
            signature: self.signature,
            inner_classes: self.inner_classes,
            attributes: self.attributes,
        }
    }
}

} // verus!
