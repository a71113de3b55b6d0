//! Objects on the heap: their field words, the values that native methods
//! keep beside them, arrays and lambdas.
use vstd::prelude::*;

use rand::rngs::StdRng;
use rand::Rng;

use crate::class::{Class, FieldType, FieldTypeView, Method, MethodDescriptor, MethodDescriptorView, MethodHandle, MethodHandleView, AccessFlags, MethodView};
use crate::code::{Code, CodeView};
use crate::error::{Error, ErrorView, Fault};
use crate::text::copy_chars;

verus! {

/// The random-number generator of `rand`, carried by `java/util/Random` objects.
#[verifier::external_type_specification]
#[verifier::external_body]
pub struct ExStdRng(StdRng);

/// A value that a native method keeps beside an object's field words.
pub enum NativeField {
    /// the characters of a string or of a string builder
    Str(Vec<char>),
    /// the element type of an array
    ArrayType(FieldType),
    /// the elements of an array of 32-bit words, or of a list
    Words(Vec<u32>),
    /// the elements of an array of 64-bit values
    Longs(Vec<u64>),
    /// the target of a lambda object
    Lambda(LambdaOverride),
    /// the generator of a `java/util/Random`
    Random(StdRng),
    /// a value kept by the host: an index into its own table
    Host(u32),
    /// the entries of a `java/util/HashMap`: hash code and value, each key once
    HashMap(Vec<(u32, u32)>),
    /// the hash codes held by a `java/util/HashSet`, each once
    HashSet(Vec<u32>),
    /// the name of the class that a `java/lang/Class` object stands for
    Class(Vec<char>),
}

/// The mathematical value of a `NativeField`. A generator is seen only as
/// being one.
pub enum NativeFieldView {
    Str(Seq<char>),
    ArrayType(FieldTypeView),
    Words(Seq<u32>),
    Longs(Seq<u64>),
    Lambda(LambdaOverrideView),
    Random,
    Host(u32),
    HashMap(Seq<(u32, u32)>),
    HashSet(Seq<u32>),
    Class(Seq<char>),
}

impl View for NativeField {
    type V = NativeFieldView;

    open spec fn view(&self) -> NativeFieldView {
        match self {
            NativeField::Str(s) => NativeFieldView::Str(s@),
            NativeField::ArrayType(t) => NativeFieldView::ArrayType(t@),
            NativeField::Words(w) => NativeFieldView::Words(w@),
            NativeField::Longs(l) => NativeFieldView::Longs(l@),
            NativeField::Lambda(l) => NativeFieldView::Lambda(l@),
            NativeField::Random(_) => NativeFieldView::Random,
            NativeField::Host(h) => NativeFieldView::Host(*h),
            NativeField::HashMap(m) => NativeFieldView::HashMap(m@),
            NativeField::HashSet(v) => NativeFieldView::HashSet(v@),
            NativeField::Class(c) => NativeFieldView::Class(c@),
        }
    }
}

/// The view of each native field of a list.
pub open spec fn native_fields_view(s: Seq<NativeField>) -> Seq<NativeFieldView> {
    s.map_values(|f: NativeField| f@)
}

/// The words and native values of an object, without its class.
pub struct Instance {
    pub fields: Vec<u32>,
    pub native_fields: Vec<NativeField>,
}

impl Instance {
    /// An instance with no fields.
    pub fn new() -> (r: Instance)
        ensures
            r.fields@.len() == 0,
            r.native_fields@.len() == 0,
    {
        Instance { fields: Vec::new(), native_fields: Vec::new() }
    }
}

/// An object on the heap.
pub struct Object {
    /// the words of its fields
    pub fields: Vec<u32>,
    /// the values that native methods keep for it
    pub native_fields: Vec<NativeField>,
    /// the name of its class
    pub class: Vec<char>,
}

/// The mathematical value of an `Object`.
pub struct ObjectView {
    pub fields: Seq<u32>,
    pub native_fields: Seq<NativeFieldView>,
    pub class: Seq<char>,
}

impl View for Object {
    type V = ObjectView;

    open spec fn view(&self) -> ObjectView {
        ObjectView {
            fields: self.fields@,
            native_fields: native_fields_view(self.native_fields@),
            class: self.class@,
        }
    }
}

impl Object {
    /// A new instance of `class`: its initial field words and no native values.
    pub fn from_class(class: &Class) -> (r: Object)
        ensures
            r@ == (ObjectView {
                fields: class@.initial_fields,
                native_fields: seq![],
                class: class@.this,
            }),
    {
        let mut fields: Vec<u32> = Vec::new();
        let mut i: usize = 0;
        while i < class.initial_fields.len()
            invariant
                i <= class.initial_fields@.len(),
                fields@ =~= class.initial_fields@.subrange(0, i as int),
            decreases class.initial_fields@.len() - i,
        {
            fields.push(class.initial_fields[i]);
            i = i + 1;
        }
        assert(class.initial_fields@.subrange(0, class.initial_fields@.len() as int) =~= class.initial_fields@);
        let r = Object { fields, native_fields: Vec::new(), class: copy_chars(&class.this) };
        assert(native_fields_view(r.native_fields@) =~= Seq::<NativeFieldView>::empty());
        r
    }

    /// The name of the object's class.
    pub fn this_class(&self) -> (r: Vec<char>)
        ensures
            r@ == self@.class,
    {
        copy_chars(&self.class)
    }
}

/// The target of an object made by a lambda expression or a method
/// reference: the interface method it implements, the method it calls, and
/// the values it captured.
pub struct LambdaOverride {
    /// the name of the interface method implemented
    pub method_name: Vec<char>,
    /// the descriptor of the interface method implemented
    pub method_descriptor: MethodDescriptor,
    /// the method that the lambda calls
    pub invoke: MethodHandle,
    /// the values captured from the lambda's scope
    pub captures: Vec<u32>,
}

/// The mathematical value of a `LambdaOverride`.
pub struct LambdaOverrideView {
    pub method_name: Seq<char>,
    pub method_descriptor: MethodDescriptorView,
    pub invoke: MethodHandleView,
    pub captures: Seq<u32>,
}

impl View for LambdaOverride {
    type V = LambdaOverrideView;

    open spec fn view(&self) -> LambdaOverrideView {
        LambdaOverrideView {
            method_name: self.method_name@,
            method_descriptor: self.method_descriptor@,
            invoke: self.invoke@,
            captures: self.captures@,
        }
    }
}

/// The native-code number that stands for a lambda object's method: the
/// host runs the `LambdaOverride` of the object the method is called on.
pub const LAMBDA_NATIVE: u32 = 0xFFFF_FFFF;

impl LambdaOverride {
    /// A copy of this target.
    pub fn copy(&self) -> (r: LambdaOverride)
        ensures
            r@ == self@,
    {
        LambdaOverride {
            method_name: copy_chars(&self.method_name),
            method_descriptor: self.method_descriptor.copy(),
            invoke: self.invoke.copy(),
            captures: crate::data::copy_words(&self.captures),
        }
    }

    /// The method that calling the implemented interface method runs: a
    /// native method taking the lambda object and the parameters. Refused
    /// when the number of locals does not fit 16 bits.
    pub fn as_method(&self) -> (r: Option<Method>)
        ensures
            match r {
                Some(m) => (self@.method_descriptor.parameter_size as u16) < u16::MAX && m@ == (MethodView {
                    max_locals: (self@.method_descriptor.parameter_size as u16 + 1) as u16,
                    access_flags: 0,
                    name: self@.method_name,
                    exceptions: seq![],
                    descriptor: self@.method_descriptor,
                    code: CodeView::Native(LAMBDA_NATIVE),
                    signature: None,
                    attributes: seq![],
                }),
                None => self@.method_descriptor.parameter_size as u16 == u16::MAX,
            },
    {
        #[verifier::truncate]
        let params = self.method_descriptor.parameter_size as u16;
        if params == u16::MAX {
            return None;
        }
        let m = Method {
            max_locals: params + 1,
            access_flags: AccessFlags(0),
            name: copy_chars(&self.method_name),
            exceptions: Vec::new(),
            descriptor: self.method_descriptor.copy(),
            code: Code::Native(LAMBDA_NATIVE),
            signature: None,
            attributes: Vec::new(),
        };
        assert(crate::raw_class::names_view(m.exceptions@) =~= Seq::<Seq<char>>::empty());
        assert(crate::attribute::attributes_view(m.attributes@) =~= Seq::<crate::attribute::AttributeView>::empty());
        Some(m)
    }
}

/// The name of the class of arrays, `java/lang/Array`.
pub open spec fn array_name() -> Seq<char> {
    seq!['j', 'a', 'v', 'a', '/', 'l', 'a', 'n', 'g', '/', 'A', 'r', 'r', 'a', 'y']
}

/// The name `java/lang/Array`.
pub fn array_class_name() -> (r: Vec<char>)
    ensures
        r@ == array_name(),
{
    let r = vec!['j', 'a', 'v', 'a', '/', 'l', 'a', 'n', 'g', '/', 'A', 'r', 'r', 'a', 'y'];
    assert(r@ =~= array_name());
    r
}

/// Read access to the parts of an array object.
pub struct ArrayFields<'a, T> {
    pub arr_type: &'a FieldType,
    pub contents: &'a Vec<T>,
}

/// Write access to the parts of an array object.
pub struct ArrayFieldsMut<'a, T> {
    pub arr_type: &'a mut FieldType,
    pub contents: &'a mut Vec<T>,
}

/// Arrays whose elements take one word each.
pub struct Array1;

/// Whether `o` is an array of one-word elements: its native values are
/// exactly an element type and the elements.
pub open spec fn is_array1(o: ObjectView) -> bool {
    o.native_fields.len() == 2 && o.native_fields[0] is ArrayType && o.native_fields[1] is Words
}

/// Whether `o` is an array of two-word elements.
pub open spec fn is_array2(o: ObjectView) -> bool {
    o.native_fields.len() == 2 && o.native_fields[0] is ArrayType && o.native_fields[1] is Longs
}

impl Array1 {
    /// A new array of `count` zero (or null) elements of type `arr_type`.
    pub fn new(count: usize, arr_type: FieldType) -> (r: Object)
        ensures
            r@.class == array_name(),
            r@.fields.len() == 0,
            r@.native_fields == seq![
                NativeFieldView::ArrayType(arr_type@),
                NativeFieldView::Words(Seq::new(count as nat, |i: int| 0u32)),
            ],
    {
        let mut contents: Vec<u32> = Vec::new();
        let mut i: usize = 0;
        while i < count
            invariant
                i <= count,
                contents@ =~= Seq::new(i as nat, |j: int| 0u32),
            decreases count - i,
        {
            contents.push(0);
            i = i + 1;
        }
        Self::from_vec(contents, arr_type)
    }

    /// An array with the elements `contents`, of type `arr_type`.
    pub fn from_vec(contents: Vec<u32>, arr_type: FieldType) -> (r: Object)
        ensures
            r@.class == array_name(),
            r@.fields.len() == 0,
            r@.native_fields == seq![
                NativeFieldView::ArrayType(arr_type@),
                NativeFieldView::Words(contents@),
            ],
    {
        let ghost t = arr_type@;
        let ghost c = contents@;
        let native_fields = vec![NativeField::ArrayType(arr_type), NativeField::Words(contents)];
        let r = Object { class: array_class_name(), fields: Vec::new(), native_fields };
        assert(r@.native_fields =~= seq![NativeFieldView::ArrayType(t), NativeFieldView::Words(c)]);
        r
    }

    /// The element type and elements of an array of one-word elements.
    pub fn extract(object: &Object) -> (r: Result<ArrayFields<'_, u32>, Fault>)
        ensures
            is_array1(object@) <==> r is Ok,
            r matches Ok(a) ==> NativeFieldView::ArrayType(a.arr_type@) == object@.native_fields[0]
                && NativeFieldView::Words(a.contents@) == object@.native_fields[1],
            r matches Err(f) ==> f == Fault::WrongObjectKind,
    {
        if object.native_fields.len() != 2 {
            return Err(Fault::WrongObjectKind);
        }
        assert(object@.native_fields[0] == object.native_fields@[0]@);
        assert(object@.native_fields[1] == object.native_fields@[1]@);
        match (&object.native_fields[0], &object.native_fields[1]) {
            (NativeField::ArrayType(arr_type), NativeField::Words(contents)) => Ok(
                ArrayFields { arr_type, contents },
            ),
            _ => Err(Fault::WrongObjectKind),
        }
    }
}

/// Arrays whose elements take two words each.
pub struct Array2;

impl Array2 {
    /// A new array of `count` zero elements of type `arr_type`.
    pub fn new(count: usize, arr_type: FieldType) -> (r: Object)
        ensures
            r@.class == array_name(),
            r@.fields.len() == 0,
            r@.native_fields == seq![
                NativeFieldView::ArrayType(arr_type@),
                NativeFieldView::Longs(Seq::new(count as nat, |i: int| 0u64)),
            ],
    {
        let mut contents: Vec<u64> = Vec::new();
        let mut i: usize = 0;
        while i < count
            invariant
                i <= count,
                contents@ =~= Seq::new(i as nat, |j: int| 0u64),
            decreases count - i,
        {
            contents.push(0);
            i = i + 1;
        }
        Self::from_vec(contents, arr_type)
    }

    /// An array with the elements `contents`, of type `arr_type`.
    pub fn from_vec(contents: Vec<u64>, arr_type: FieldType) -> (r: Object)
        ensures
            r@.class == array_name(),
            r@.fields.len() == 0,
            r@.native_fields == seq![
                NativeFieldView::ArrayType(arr_type@),
                NativeFieldView::Longs(contents@),
            ],
    {
        let ghost t = arr_type@;
        let ghost c = contents@;
        let native_fields = vec![NativeField::ArrayType(arr_type), NativeField::Longs(contents)];
        let r = Object { class: array_class_name(), fields: Vec::new(), native_fields };
        assert(r@.native_fields =~= seq![NativeFieldView::ArrayType(t), NativeFieldView::Longs(c)]);
        r
    }

    /// The element type and elements of an array of two-word elements.
    pub fn extract(object: &Object) -> (r: Result<ArrayFields<'_, u64>, Fault>)
        ensures
            is_array2(object@) <==> r is Ok,
            r matches Ok(a) ==> NativeFieldView::ArrayType(a.arr_type@) == object@.native_fields[0]
                && NativeFieldView::Longs(a.contents@) == object@.native_fields[1],
            r matches Err(f) ==> f == Fault::WrongObjectKind,
    {
        if object.native_fields.len() != 2 {
            return Err(Fault::WrongObjectKind);
        }
        assert(object@.native_fields[0] == object.native_fields@[0]@);
        assert(object@.native_fields[1] == object.native_fields@[1]@);
        match (&object.native_fields[0], &object.native_fields[1]) {
            (NativeField::ArrayType(arr_type), NativeField::Longs(contents)) => Ok(
                ArrayFields { arr_type, contents },
            ),
            _ => Err(Fault::WrongObjectKind),
        }
    }
}

/// A UTF-16 code unit, as Java's `char` holds it.
#[derive(Clone, Copy, PartialEq, Eq, Structural, Debug)]
pub struct Char(pub u16);

/// A `rand` draw: a number below `bound`.
///
/// Calls `Rng::gen_range` with the range `0..bound`; claimed: the result lies
/// in that range (the range is not empty, which `gen_range` would refuse).
#[verifier::external_body]
fn gen_below(rng: &mut StdRng, bound: u32) -> (r: u32)
    requires
        bound > 0,
    ensures
        r < bound,
{
    rng.gen_range(0..bound)
}

/// The generator of a `java/util/Random` object: its first native value.
pub open spec fn has_generator(o: ObjectView) -> bool {
    o.native_fields.len() > 0 && o.native_fields[0] is Random
}

/// `java/util/Random.nextInt(bound)`: a number from 0 up to, not including,
/// `bound`, drawn by the object's generator. Refused for a bound of 0, and
/// for an object without a generator.
pub fn random_next_int(object: &mut Object, bound: u32) -> (r: Result<u32, Fault>)
    ensures
        bound == 0 ==> r == Err::<u32, Fault>(Fault::IndexOutOfBounds),
        bound > 0 && !has_generator(old(object)@) ==> r == Err::<u32, Fault>(Fault::WrongObjectKind),
        bound > 0 && has_generator(old(object)@) ==> (r matches Ok(v) && v < bound),
        final(object)@ == old(object)@,
{
    if bound == 0 {
        return Err(Fault::IndexOutOfBounds);
    }
    if object.native_fields.len() == 0 {
        return Err(Fault::WrongObjectKind);
    }
    assert(old(object)@.native_fields[0] == object.native_fields@[0]@);
    let ghost before = object.native_fields@;
    let mut field = object.native_fields.remove(0);
    let r = match &mut field {
        NativeField::Random(rng) => Ok(gen_below(rng, bound)),
        _ => Err(Fault::WrongObjectKind),
    };
    assert(field@ == before[0]@);
    object.native_fields.insert(0, field);
    assert(native_fields_view(object.native_fields@) =~= native_fields_view(before));
    r
}

/// Gives a `java/util/Random` object its generator (what its constructor does).
pub fn random_init(object: &mut Object, rng: StdRng)
    ensures
        final(object)@.fields == old(object)@.fields,
        final(object)@.class == old(object)@.class,
        final(object)@.native_fields == old(object)@.native_fields.push(NativeFieldView::Random),
{
    let ghost before = native_fields_view(object.native_fields@);
    object.native_fields.push(NativeField::Random(rng));
    assert(native_fields_view(object.native_fields@) =~= before.push(NativeFieldView::Random));
}

} // verus!
