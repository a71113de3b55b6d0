//! Native methods: the classes of the Java library that the machine provides
//! itself, the numbers of their native methods, and what running one does to
//! the thread.
use vstd::prelude::*;

use crate::class::{AccessFlags, FieldType, FieldTypeView, MethodDescriptor, MethodDescriptorView};
use crate::class_loader::sum_sizes;
use crate::class::field_types_view;
use crate::data::{insert_entry, lookup_entry, raw_method_key, MethodKey, WorkingClassArea, WorkingMethodArea};
use crate::error::{Error, Fault};
use crate::frame::StackFrameView;
use crate::heap::{spec_inc_ref, HeapView};
use crate::instruction::{hi_word, lo_word};
use crate::raw_class::{MethodNameView, RawClass, RawClassView, RawCode, RawCodeView, RawMethod, RawMethodView};
use crate::text::chars;
use crate::thread::{frames_view, fresh_frame, spec_resolve, with_stack, Thread};
use crate::class::{ClassView, MethodView};
use crate::error::ErrorView;

pub mod arrays;
pub mod reflect;
pub mod throwable;
pub mod collections;
pub mod function;
pub mod stream;
pub mod object;
pub mod primitives;
pub mod string;
pub mod string_builder;

verus! {

/// `Object.<init>` and the other constructors that do nothing.
pub const NOOP: u32 = 1;
/// `Object.toString`: the reference in eight hexadecimal digits.
pub const OBJECT_TO_STRING: u32 = 2;
/// `Object.hashCode`.
pub const OBJECT_HASH_CODE: u32 = 3;
/// `Object.getClass`.
pub const OBJECT_GET_CLASS: u32 = 4;
/// `Enum.<init>(String, int)`.
pub const ENUM_INIT: u32 = 5;
/// `Enum.toString` and `Enum.name`.
pub const ENUM_NAME: u32 = 6;
/// `Arrays.toString`.
pub const ARRAYS_TO_STRING: u32 = 7;
/// `Arrays.deepToString`.
pub const ARRAYS_DEEP_TO_STRING: u32 = 8;
/// A native method that is declared but not provided.
pub const TODO: u32 = 9;
/// `String.length`.
pub const STRING_LENGTH: u32 = 10;
/// `String.charAt`.
pub const STRING_CHAR_AT: u32 = 11;
/// `String.valueOf(Object)`.
pub const STRING_VALUE_OF: u32 = 12;
/// `String.toString`.
pub const STRING_TO_STRING: u32 = 13;
/// `String.compareTo`.
pub const STRING_COMPARE_TO: u32 = 14;
/// `String.contains`.
pub const STRING_CONTAINS: u32 = 15;
/// `StringBuilder.<init>(String)`.
pub const BUILDER_INIT: u32 = 16;
/// `StringBuilder.setCharAt`.
pub const BUILDER_SET_CHAR_AT: u32 = 17;
/// `StringBuilder.toString`.
pub const BUILDER_TO_STRING: u32 = 18;
/// `Random.<init>`: the generator is seeded from the host's entropy.
pub const RANDOM_INIT: u32 = 19;
/// `Random.nextInt(int)`.
pub const RANDOM_NEXT_INT: u32 = 20;
/// `PrintStream.println(String)` and `println(Object)`.
pub const PRINTLN_OBJECT: u32 = 21;
/// `PrintStream.println(char)`.
pub const PRINTLN_CHAR: u32 = 22;
/// `PrintStream.println(boolean)`.
pub const PRINTLN_BOOL: u32 = 23;
/// `PrintStream.println(int)`.
pub const PRINTLN_INT: u32 = 24;
/// `PrintStream.println(long)`.
pub const PRINTLN_LONG: u32 = 25;
/// `PrintStream.println(float)`: the host writes the number.
pub const PRINTLN_FLOAT: u32 = 26;
/// `PrintStream.println()`.
pub const PRINTLN_EMPTY: u32 = 27;
/// `System.<clinit>`: makes `System.out`.
pub const SYSTEM_CLINIT: u32 = 28;
/// `System.arraycopy`.
pub const ARRAYCOPY: u32 = 29;
/// `Math.sqrt(double)`: the host computes it.
pub const MATH_SQRT: u32 = 30;
/// `IllegalArgumentException.toString`.
pub const ILLEGAL_ARGUMENT_TO_STRING: u32 = 31;
/// `ArithmeticException.toString`.
pub const ARITHMETIC_TO_STRING: u32 = 32;
/// `Class.getName`.
pub const CLASS_GET_NAME: u32 = 33;

/// Whether the host runs the native method `id` itself: those that read its
/// entropy, hash with std's default hasher, or compute with floating-point
/// numbers (the `float` and `double` wrappers' `toString` and parse).
pub open spec fn is_host_native(id: u32) -> bool {
    ||| id == RANDOM_INIT
    ||| id == OBJECT_HASH_CODE
    ||| id == PRINTLN_FLOAT
    ||| id == MATH_SQRT
    ||| id == primitives::primitive_id(primitives::FLOAT, primitives::TO_STRING)
    ||| id == primitives::primitive_id(primitives::FLOAT, primitives::PARSE)
    ||| id == primitives::primitive_id(primitives::DOUBLE, primitives::TO_STRING)
    ||| id == primitives::primitive_id(primitives::DOUBLE, primitives::PARSE)
}

/// Whether the host runs the native method `id` (see `is_host_native`).
pub fn host_native(id: u32) -> (r: bool)
    ensures
        r == is_host_native(id),
{
    id == RANDOM_INIT || id == OBJECT_HASH_CODE || id == PRINTLN_FLOAT || id == MATH_SQRT || id == 64 + 4 * 8 + 2
        || id == 64 + 4 * 8 + 4 || id == 64 + 5 * 8 + 2 || id == 64 + 5 * 8 + 4
}

/// `public native`
pub const PUBLIC_NATIVE: u16 = 0x0101;
/// `public static native`
pub const PUBLIC_STATIC_NATIVE: u16 = 0x0109;
/// `public abstract native`
pub const PUBLIC_ABSTRACT_NATIVE: u16 = 0x0501;
/// `native`
pub const NATIVE: u16 = 0x0100;

/// The type of references to the class `name`.
pub fn object_type(name: &str) -> (r: FieldType)
    ensures
        r@ == FieldTypeView::Object(name@),
{
    FieldType::Object(chars(name))
}

/// The descriptor with the parameters `ps` and the return type `ret`.
pub open spec fn mdesc(ps: Seq<FieldTypeView>, ret: Option<FieldTypeView>) -> MethodDescriptorView {
    MethodDescriptorView { parameter_size: sum_sizes(ps), parameters: ps, return_type: ret }
}

/// A native method: `name` with the descriptor `d` and the access flags
/// `flags`, run by the native method number `id`.
pub open spec fn native_view(flags: u16, name: Seq<char>, d: MethodDescriptorView, id: u32) -> RawMethodView {
    RawMethodView {
        access_flags: flags,
        name,
        exceptions: seq![],
        descriptor: d,
        code: RawCodeView::Native(id),
        signature: None,
        attributes: seq![],
    }
}

/// The method area after filing the methods `ms` of the class `class`, in
/// order.
pub open spec fn file_methods(
    area: Seq<(MethodKey, (Seq<char>, RawMethodView))>,
    class: Seq<char>,
    ms: Seq<RawMethodView>,
) -> Seq<(MethodKey, (Seq<char>, RawMethodView))>
    decreases ms.len(),
{
    if ms.len() == 0 {
        area
    } else {
        file_methods(insert_entry(area, raw_method_key(class, ms[0]), (class, ms[0])), class, ms.drop_first())
    }
}

/// The class `c` listing the methods `ms` after its own.
pub open spec fn with_method_names(c: RawClassView, ms: Seq<RawMethodView>) -> RawClassView {
    RawClassView {
        methods: c.methods + ms.map_values(
            |m: RawMethodView| MethodNameView { class: c.this, name: m.name, descriptor: m.descriptor },
        ),
        ..c
    }
}

/// The descriptor with the given parameters and return type.
pub fn descriptor(parameters: Vec<FieldType>, return_type: Option<FieldType>) -> (r: MethodDescriptor)
    requires
        parameters@.len() < usize::MAX / 2,
    ensures
        r@.parameters == field_types_view(parameters@),
        r@.parameter_size == sum_sizes(field_types_view(parameters@)),
        r@.return_type == crate::class::opt_field_type_view(return_type),
        r@ == mdesc(field_types_view(parameters@), crate::class::opt_field_type_view(return_type)),
        parameters@.len() == 1 ==> field_types_view(parameters@) == seq![parameters@[0]@],
        parameters@.len() == 2 ==> field_types_view(parameters@) == seq![parameters@[0]@, parameters@[1]@],
        parameters@.len() == 5 ==> field_types_view(parameters@) == seq![
            parameters@[0]@,
            parameters@[1]@,
            parameters@[2]@,
            parameters@[3]@,
            parameters@[4]@,
        ],
{
    proof {
        let v = field_types_view(parameters@);
        if parameters@.len() == 1 {
            assert(v =~= seq![parameters@[0]@]);
        }
        if parameters@.len() == 2 {
            assert(v =~= seq![parameters@[0]@, parameters@[1]@]);
        }
        if parameters@.len() == 5 {
            assert(v =~= seq![parameters@[0]@, parameters@[1]@, parameters@[2]@, parameters@[3]@, parameters@[4]@]);
        }
    }
    let mut size: usize = 0;
    let mut i: usize = 0;
    while i < parameters.len()
        invariant
            i <= parameters@.len(),
            parameters@.len() < usize::MAX / 2,
            size <= 2 * i,
            size == sum_sizes(field_types_view(parameters@).subrange(0, i as int)),
        decreases parameters@.len() - i,
    {
        proof {
            let s = field_types_view(parameters@);
            assert(s.subrange(0, i + 1).drop_last() =~= s.subrange(0, i as int));
        }
        size = size + parameters[i].get_size();
        i = i + 1;
    }
    proof {
        let s = field_types_view(parameters@);
        assert(s.subrange(0, s.len() as int) =~= s);
    }
    MethodDescriptor { parameter_size: size, parameters, return_type }
}

/// A native method: `name` with the given descriptor and access flags, run
/// by the native method number `id`.
pub fn native_method(flags: u16, name: &str, descriptor: MethodDescriptor, id: u32) -> (r: RawMethod)
    ensures
        r@.access_flags == flags,
        r@.name == name@,
        r@.exceptions.len() == 0,
        r@.descriptor == descriptor@,
        r@.code == RawCodeView::Native(id),
        r@.signature is None,
        r@.attributes.len() == 0,
        r@ == native_view(flags, name@, descriptor@, id),
{
    let r = RawMethod {
        access_flags: AccessFlags(flags),
        name: chars(name),
        exceptions: Vec::new(),
        descriptor,
        code: RawCode::native(id),
        signature: None,
        attributes: Vec::new(),
    };
    assert(r@.exceptions =~= Seq::<Seq<char>>::empty());
    assert(r@.attributes =~= seq![]);
    r
}

/// A method without code, declared `public abstract`.
pub fn abstract_method(name: &str, descriptor: MethodDescriptor) -> (r: RawMethod)
    ensures
        r@.name == name@,
        r@.descriptor == descriptor@,
        r@.code == RawCodeView::Abstract,
        r@ == abstract_view(name@, descriptor@),
{
    let r = RawMethod {
        access_flags: AccessFlags(PUBLIC_ABSTRACT_NATIVE),
        name: chars(name),
        exceptions: Vec::new(),
        descriptor,
        code: RawCode::Abstract,
        signature: None,
        attributes: Vec::new(),
    };
    assert(r@.exceptions =~= seq![]);
    assert(r@.attributes =~= seq![]);
    r
}

/// The key under which the method `m` of the class `c` is filed.
pub open spec fn name_key(m: MethodNameView) -> MethodKey {
    (m.class, m.name, m.descriptor)
}

/// Whether a method with native code, or none, is filed in `area` under `k`.
pub open spec fn filed_native(area: Seq<(MethodKey, (Seq<char>, RawMethodView))>, k: MethodKey) -> bool {
    match lookup_entry(area, k) {
        Some((_, m)) => m.code is Native || m.code is Abstract,
        None => false,
    }
}

/// Whether every method that the class `c` lists is filed in `area`, with
/// native code or none.
pub open spec fn registered(area: Seq<(MethodKey, (Seq<char>, RawMethodView))>, c: RawClassView) -> bool {
    forall|j: int| 0 <= j < c.methods.len() ==> #[trigger] filed_native(area, name_key(c.methods[j]))
}

/// Filing a method keeps every key that was filed.
pub proof fn lemma_insert_keeps<K, V>(entries: Seq<(K, V)>, k: K, v: V)
    ensures
        forall|k2: K| #[trigger] lookup_entry(entries, k2) is Some ==> lookup_entry(insert_entry(entries, k, v), k2)
            is Some,
        lookup_entry(insert_entry(entries, k, v), k) == Some(v),
        forall|k2: K| k2 != k ==> #[trigger] lookup_entry(insert_entry(entries, k, v), k2) == lookup_entry(entries, k2),
{
    assert forall|k2: K| #[trigger] lookup_entry(entries, k2) is Some implies lookup_entry(
        insert_entry(entries, k, v),
        k2,
    ) is Some by {
        crate::data::lemma_insert_lookup(entries, k, v, k2);
    }
    crate::data::lemma_insert_lookup(entries, k, v, k);
    assert forall|k2: K| k2 != k implies #[trigger] lookup_entry(insert_entry(entries, k, v), k2) == lookup_entry(
        entries,
        k2,
    ) by {
        crate::data::lemma_insert_lookup(entries, k, v, k2);
    }
}

/// Files the native or abstract method `method` under the class `class`: the
/// class lists it and the area holds it. Every class that had all its
/// methods filed still has.
pub fn register_method(class: &mut RawClass, method: RawMethod, area: &mut WorkingMethodArea)
    requires
        method@.code is Native || method@.code is Abstract,
        registered(old(area)@, old(class)@),
    ensures
        final(class)@ == (RawClassView {
            methods: old(class)@.methods.push(
                MethodNameView { class: old(class)@.this, name: method@.name, descriptor: method@.descriptor },
            ),
            ..old(class)@
        }),
        final(area)@ == insert_entry(
            old(area)@,
            raw_method_key(old(class)@.this, method@),
            (old(class)@.this, method@),
        ),
        registered(final(area)@, final(class)@),
        forall|c: RawClassView| registered(old(area)@, c) ==> #[trigger] registered(final(area)@, c),
{
    let name = method.name(crate::text::copy_chars(&class.this));
    let ghost mv = method@;
    let ghost k = raw_method_key(class@.this, mv);
    area.push(crate::text::copy_chars(&class.this), method);
    let ghost before = class.methods@;
    class.methods.push(name);
    proof {
        lemma_insert_keeps(old(area)@, k, (old(class)@.this, mv));
        assert(crate::raw_class::method_names_view(class.methods@) =~= crate::raw_class::method_names_view(
            before,
        ).push(MethodNameView { class: old(class)@.this, name: mv.name, descriptor: mv.descriptor }));
        let fc = class@;
        assert forall|j: int| 0 <= j < fc.methods.len() implies #[trigger] filed_native(
            area@,
            name_key(fc.methods[j]),
        ) by {
            if j < fc.methods.len() - 1 {
                assert(fc.methods[j] == old(class)@.methods[j]);
                let kj = name_key(fc.methods[j]);
                assert(filed_native(old(area)@, kj));
                crate::data::lemma_insert_lookup(old(area)@, k, (old(class)@.this, mv), kj);
            } else {
                assert(name_key(fc.methods[j]) == k);
            }
        }
        assert forall|c: RawClassView| registered(old(area)@, c) implies #[trigger] registered(area@, c) by {
            assert forall|j: int| 0 <= j < c.methods.len() implies #[trigger] filed_native(
                area@,
                name_key(c.methods[j]),
            ) by {
                let kj = name_key(c.methods[j]);
                assert(filed_native(old(area)@, kj));
                crate::data::lemma_insert_lookup(old(area)@, k, (old(class)@.this, mv), kj);
            }
        }
    }
}

/// Whether every class name filed in `a` is still filed in `b`.
pub open spec fn keys_kept<V>(a: Seq<(Seq<char>, V)>, b: Seq<(Seq<char>, V)>) -> bool {
    forall|k: Seq<char>| lookup_entry(a, k) is Some ==> #[trigger] lookup_entry(b, k) is Some
}

/// Whether every class of `ca` that is new or changed since `start` has all
/// its methods filed in `ma` (see `registered`).
pub open spec fn natives_filed(
    ma: Seq<(MethodKey, (Seq<char>, RawMethodView))>,
    ca: Seq<(Seq<char>, RawClassView)>,
    start: Seq<(Seq<char>, RawClassView)>,
) -> bool {
    &&& start.len() <= ca.len()
    &&& forall|i: int|
        0 <= i < ca.len() && (i >= start.len() || ca[i] != start[i]) ==> #[trigger] registered(ma, ca[i].1)
}

/// Files the method `method` under the class `class` (see
/// `register_method`), keeping the classes filed so far registered.
pub fn register(
    class: &mut RawClass,
    method: RawMethod,
    ma: &mut WorkingMethodArea,
    Ghost(ca): Ghost<Seq<(Seq<char>, RawClassView)>>,
    Ghost(start): Ghost<Seq<(Seq<char>, RawClassView)>>,
)
    requires
        method@.code is Native || method@.code is Abstract,
        registered(old(ma)@, old(class)@),
        natives_filed(old(ma)@, ca, start),
    ensures
        final(class)@ == (RawClassView {
            methods: old(class)@.methods.push(
                MethodNameView { class: old(class)@.this, name: method@.name, descriptor: method@.descriptor },
            ),
            ..old(class)@
        }),
        registered(final(ma)@, final(class)@),
        natives_filed(final(ma)@, ca, start),
        final(ma)@ == insert_entry(
            old(ma)@,
            raw_method_key(old(class)@.this, method@),
            (old(class)@.this, method@),
        ),
{
    register_method(class, method, ma);
    assert forall|i: int|
        0 <= i < ca.len() && (i >= start.len() || ca[i] != start[i]) implies #[trigger] registered(
        ma@,
        ca[i].1,
    ) by {
        assert(registered(old(ma)@, ca[i].1));
    }
}

/// Files the class `c`, whose methods are all filed, in the class area.
pub fn file_class(
    ca: &mut WorkingClassArea,
    c: RawClass,
    Ghost(ma): Ghost<Seq<(MethodKey, (Seq<char>, RawMethodView))>>,
    Ghost(start): Ghost<Seq<(Seq<char>, RawClassView)>>,
)
    requires
        registered(ma, c@),
        natives_filed(ma, old(ca)@, start),
    ensures
        natives_filed(ma, final(ca)@, start),
        keys_kept(old(ca)@, final(ca)@),
        lookup_entry(final(ca)@, c@.this) is Some,
        final(ca)@ == insert_entry(old(ca)@, c@.this, c@),
{
    let ghost cv = c@;
    ca.push(c);
    proof {
        lemma_insert_keeps(old(ca)@, cv.this, cv);
        let keys = old(ca)@.map_values(|e: (Seq<char>, RawClassView)| e.0);
        crate::data::lemma_find_key(keys, cv.this);
        let j = crate::data::find_key(keys, cv.this);
        assert forall|i: int|
            0 <= i < ca@.len() && (i >= start.len() || ca@[i] != start[i]) implies #[trigger] registered(
            ma,
            ca@[i].1,
        ) by {
            if i < old(ca)@.len() && i != j {
                assert(ca@[i] == old(ca)@[i]);
            }
        }
    }
}

/// Whether every method of `ms` has native code or none.
pub open spec fn all_native(ms: Seq<RawMethod>) -> bool {
    forall|j: int| 0 <= j < ms.len() ==> (#[trigger] ms[j]@.code is Native || ms[j]@.code is Abstract)
}

/// Files the methods `methods` under the class `c`, then the class.
pub fn file_with_methods(
    c: RawClass,
    methods: Vec<RawMethod>,
    ma: &mut WorkingMethodArea,
    ca: &mut WorkingClassArea,
    Ghost(start): Ghost<Seq<(Seq<char>, RawClassView)>>,
)
    requires
        registered(old(ma)@, c@),
        all_native(methods@),
        natives_filed(old(ma)@, old(ca)@, start),
    ensures
        natives_filed(final(ma)@, final(ca)@, start),
        keys_kept(old(ca)@, final(ca)@),
        lookup_entry(final(ca)@, c@.this) is Some,
        final(ma)@ == file_methods(old(ma)@, c@.this, crate::raw_class::raw_methods_view(methods@)),
        final(ca)@ == insert_entry(
            old(ca)@,
            c@.this,
            with_method_names(c@, crate::raw_class::raw_methods_view(methods@)),
        ),
{
    let ghost c0 = c@;
    let ghost all = crate::raw_class::raw_methods_view(methods@);
    let mut c = c;
    let mut methods = methods;
    let ghost this = c@.this;
    assert(c0.methods + all.map_values(
        |m: RawMethodView| MethodNameView { class: c0.this, name: m.name, descriptor: m.descriptor },
    ) =~= with_method_names(c0, all).methods);
    while methods.len() > 0
        invariant
            c@.this == this,
            this == c0.this,
            registered(ma@, c@),
            all_native(methods@),
            natives_filed(ma@, old(ca)@, start),
            file_methods(old(ma)@, this, all) == file_methods(ma@, this, crate::raw_class::raw_methods_view(methods@)),
            with_method_names(c0, all) == with_method_names(c@, crate::raw_class::raw_methods_view(methods@)),
        decreases methods@.len(),
    {
        let ghost rest = methods@;
        let ghost cb = c@;
        let ghost mb = ma@;
        let m = methods.remove(0);
        assert(m@.code is Native || m@.code is Abstract) by {
            assert(rest[0] == m);
        }
        assert(all_native(methods@)) by {
            assert forall|j: int| 0 <= j < methods@.len() implies (#[trigger] methods@[j]@.code is Native
                || methods@[j]@.code is Abstract) by {
                assert(methods@[j] == rest[j + 1]);
            }
        }
        let ghost mv = m@;
        register(&mut c, m, ma, Ghost(old(ca)@), Ghost(start));
        proof {
            let rv = crate::raw_class::raw_methods_view(rest);
            assert(rv[0] == mv);
            assert(rv.drop_first() =~= crate::raw_class::raw_methods_view(methods@));
            let f = |x: RawMethodView| MethodNameView { class: this, name: x.name, descriptor: x.descriptor };
            assert(cb.methods + rv.map_values(f) =~= c@.methods + rv.drop_first().map_values(f));
        }
    }
    proof {
        let rv = crate::raw_class::raw_methods_view(methods@);
        assert(rv =~= Seq::<RawMethodView>::empty());
        let f = |x: RawMethodView| MethodNameView { class: this, name: x.name, descriptor: x.descriptor };
        assert(c@.methods + rv.map_values(f) =~= c@.methods);
        assert(with_method_names(c@, rv) =~= c@);
    }
    file_class(ca, c, Ghost(ma@), Ghost(start));
}

/// Adds the native or abstract method `m` to the list `ms`.
pub fn add_method(ms: &mut Vec<RawMethod>, m: RawMethod)
    requires
        all_native(old(ms)@),
        m@.code is Native || m@.code is Abstract,
    ensures
        all_native(final(ms)@),
        final(ms)@ == old(ms)@.push(m),
{
    ms.push(m);
    assert forall|j: int| 0 <= j < ms@.len() implies (#[trigger] ms@[j]@.code is Native || ms@[j]@.code
        is Abstract) by {
        if j < old(ms)@.len() {
            assert(ms@[j] == old(ms)@[j]);
        }
    }
}

/// A new class of the library: its access, name and superclass.
pub fn library_class(flags: u16, name: &str, super_class: &str) -> (r: RawClass)
    ensures
        r@.this == name@,
        r@.methods.len() == 0,
        r@ == crate::raw_class::new_class_view(flags, name@, super_class@),
        r.fields@.len() == 0,
        r.statics@.len() == 0,
        r.static_data@.len() == 0,
{
    RawClass::new(AccessFlags(flags), chars(name), chars(super_class))
}

/// A field of a class of the library: `name` of the type `t` with the
/// access flags `flags`.
pub open spec fn lib_field(flags: u16, name: Seq<char>, t: FieldTypeView) -> crate::raw_class::FieldView {
    crate::raw_class::FieldView {
        access_flags: flags,
        name,
        descriptor: t,
        constant_value: None,
        signature: None,
        attributes: seq![],
    }
}

/// A method without code: `name` with the descriptor `d`, declared
/// `public abstract`.
pub open spec fn abstract_view(name: Seq<char>, d: MethodDescriptorView) -> RawMethodView {
    RawMethodView {
        access_flags: PUBLIC_ABSTRACT_NATIVE,
        name,
        exceptions: seq![],
        descriptor: d,
        code: RawCodeView::Abstract,
        signature: None,
        attributes: seq![],
    }
}

/// A field of a class of the library.
pub fn library_field(flags: u16, name: &str, descriptor: FieldType) -> (r: crate::raw_class::Field)
    ensures
        r@ == (crate::raw_class::FieldView {
            access_flags: flags,
            name: name@,
            descriptor: descriptor@,
            constant_value: None,
            signature: None,
            attributes: seq![],
        }),
        r@ == lib_field(flags, name@, descriptor@),
{
    let attributes: Vec<crate::attribute::Attribute> = Vec::new();
    assert(crate::attribute::attributes_view(attributes@) =~= Seq::<crate::attribute::AttributeView>::empty());
    crate::raw_class::Field {
        access_flags: AccessFlags(flags),
        name: chars(name),
        descriptor,
        constant_value: None,
        signature: None,
        attributes,
    }
}

/// The descriptor of a method without parameters.
pub fn no_args(return_type: Option<FieldType>) -> (r: MethodDescriptor)
    ensures
        r@.parameters.len() == 0,
        r@.parameter_size == 0,
        r@.return_type == crate::class::opt_field_type_view(return_type),
        r@ == mdesc(seq![], crate::class::opt_field_type_view(return_type)),
{
    let none: Vec<FieldType> = Vec::new();
    assert(field_types_view(none@) =~= Seq::<FieldTypeView>::empty());
    descriptor(none, return_type)
}

/// The type `java/lang/String`.
pub fn string_type() -> (r: FieldType)
    ensures
        r@ == FieldTypeView::Object("java/lang/String"@),
{
    object_type("java/lang/String")
}

/// The type `java/lang/Object`.
pub fn any_type() -> (r: FieldType)
    ensures
        r@ == FieldTypeView::Object("java/lang/Object"@),
{
    object_type("java/lang/Object")
}

/// The methods of `java/lang/Object`, in the order they are filed.
pub open spec fn lib_object_methods() -> Seq<crate::raw_class::RawMethodView> {
    seq![
        crate::native::native_view(PUBLIC_NATIVE, "<init>"@, crate::native::mdesc(seq![], None), NOOP),
        crate::native::native_view(PUBLIC_NATIVE, "toString"@, crate::native::mdesc(seq![], Some(crate::class::FieldTypeView::Object("java/lang/String"@))), OBJECT_TO_STRING),
        crate::native::native_view(PUBLIC_NATIVE, "hashCode"@, crate::native::mdesc(seq![], Some(crate::class::FieldTypeView::Int)), OBJECT_HASH_CODE),
        crate::native::native_view(PUBLIC_NATIVE, "getClass"@, crate::native::mdesc(seq![], Some(crate::class::FieldTypeView::Object("java/lang/Class"@))), OBJECT_GET_CLASS),
    ]
}

/// `java/lang/Object` before its methods are listed.
pub open spec fn lib_object_base() -> crate::raw_class::RawClassView {
    crate::raw_class::new_class_view(PUBLIC_NATIVE, "java/lang/Object"@, "java/lang/Object"@)
}

/// The methods of `java/lang/Enum`, in the order they are filed.
pub open spec fn lib_enum_methods() -> Seq<crate::raw_class::RawMethodView> {
    seq![
        crate::native::native_view(PUBLIC_NATIVE, "<init>"@, crate::native::mdesc(seq![crate::class::FieldTypeView::Object("java/lang/String"@), crate::class::FieldTypeView::Int], None), ENUM_INIT),
        crate::native::native_view(PUBLIC_NATIVE, "toString"@, crate::native::mdesc(seq![], Some(crate::class::FieldTypeView::Object("java/lang/Object"@))), ENUM_NAME),
        crate::native::native_view(PUBLIC_NATIVE, "name"@, crate::native::mdesc(seq![], Some(crate::class::FieldTypeView::Object("java/lang/Object"@))), ENUM_NAME),
    ]
}

/// `java/lang/Enum` before its methods are listed.
pub open spec fn lib_enum_base() -> crate::raw_class::RawClassView {
    crate::raw_class::RawClassView {
        fields: seq![(crate::native::lib_field(PUBLIC_NATIVE, "enum$name"@, crate::class::FieldTypeView::Object("java/lang/String"@)), 0usize), (crate::native::lib_field(PUBLIC_NATIVE, "enum$id"@, crate::class::FieldTypeView::Int), 1usize)],
        field_size: 2,
        ..crate::raw_class::new_class_view(PUBLIC_ABSTRACT_NATIVE, "java/lang/Enum"@, "java/lang/Object"@)
    }
}

/// The methods of `java/lang/Array`, in the order they are filed.
pub open spec fn lib_array_methods() -> Seq<crate::raw_class::RawMethodView> {
    seq![]
}

/// `java/lang/Array` before its methods are listed.
pub open spec fn lib_array_base() -> crate::raw_class::RawClassView {
    crate::raw_class::new_class_view(PUBLIC_NATIVE, "java/lang/Array"@, "java/lang/Object"@)
}

/// The methods that `java/util/Arrays` lists first.
pub open spec fn lib_arrays_listed() -> Seq<crate::raw_class::RawMethodView> {
    seq![
        crate::native::native_view(PUBLIC_STATIC_NATIVE, "toString"@, crate::native::mdesc(seq![crate::class::FieldTypeView::Array(Box::new(crate::class::FieldTypeView::Int))], Some(crate::class::FieldTypeView::Object("java/lang/String"@))), ARRAYS_TO_STRING),
        crate::native::native_view(PUBLIC_STATIC_NATIVE, "toString"@, crate::native::mdesc(seq![crate::class::FieldTypeView::Array(Box::new(crate::class::FieldTypeView::Object("java/lang/Object"@)))], Some(crate::class::FieldTypeView::Object("java/lang/String"@))), ARRAYS_TO_STRING),
        crate::native::native_view(PUBLIC_STATIC_NATIVE, "deepToString"@, crate::native::mdesc(seq![crate::class::FieldTypeView::Array(Box::new(crate::class::FieldTypeView::Object("java/lang/Object"@)))], Some(crate::class::FieldTypeView::Object("java/lang/String"@))), ARRAYS_DEEP_TO_STRING),
    ]
}

/// The methods of `java/util/Arrays`, in the order they are filed: its own,
/// then the `toString` of the arrays of each primitive type.
pub open spec fn lib_arrays_methods() -> Seq<crate::raw_class::RawMethodView> {
    lib_arrays_listed() + Seq::new(8, |i: int| crate::native::primitives::array_to_string_todo())
}

/// `java/util/Arrays` before its methods are listed.
pub open spec fn lib_arrays_base() -> crate::raw_class::RawClassView {
    crate::raw_class::new_class_view(PUBLIC_NATIVE, "java/util/Arrays"@, "java/lang/Object"@)
}

/// The methods of `java/lang/String`, in the order they are filed.
pub open spec fn lib_string_methods() -> Seq<crate::raw_class::RawMethodView> {
    seq![
        crate::native::native_view(PUBLIC_NATIVE, "length"@, crate::native::mdesc(seq![], Some(crate::class::FieldTypeView::Int)), STRING_LENGTH),
        crate::native::native_view(PUBLIC_NATIVE, "charAt"@, crate::native::mdesc(seq![crate::class::FieldTypeView::Int], Some(crate::class::FieldTypeView::Char)), STRING_CHAR_AT),
        crate::native::native_view(PUBLIC_NATIVE, "valueOf"@, crate::native::mdesc(seq![crate::class::FieldTypeView::Object("java/lang/Object"@)], Some(crate::class::FieldTypeView::Object("java/lang/String"@))), STRING_VALUE_OF),
        crate::native::native_view(PUBLIC_NATIVE, "toString"@, crate::native::mdesc(seq![], Some(crate::class::FieldTypeView::Object("java/lang/String"@))), STRING_TO_STRING),
        crate::native::native_view(PUBLIC_NATIVE, "compareTo"@, crate::native::mdesc(seq![crate::class::FieldTypeView::Object("java/lang/String"@)], Some(crate::class::FieldTypeView::Int)), STRING_COMPARE_TO),
        crate::native::native_view(PUBLIC_NATIVE, "contains"@, crate::native::mdesc(seq![crate::class::FieldTypeView::Object("java/lang/CharSequence"@)], Some(crate::class::FieldTypeView::Boolean)), STRING_CONTAINS),
    ]
}

/// `java/lang/String` before its methods are listed.
pub open spec fn lib_string_base() -> crate::raw_class::RawClassView {
    crate::raw_class::new_class_view(PUBLIC_NATIVE, "java/lang/String"@, "java/lang/Object"@)
}

/// The methods of `java/lang/StringBuilder`, in the order they are filed.
pub open spec fn lib_string_builder_methods() -> Seq<crate::raw_class::RawMethodView> {
    seq![
        crate::native::native_view(PUBLIC_NATIVE, "<init>"@, crate::native::mdesc(seq![crate::class::FieldTypeView::Object("java/lang/String"@)], None), BUILDER_INIT),
        crate::native::native_view(PUBLIC_NATIVE, "setCharAt"@, crate::native::mdesc(seq![crate::class::FieldTypeView::Int, crate::class::FieldTypeView::Char], None), BUILDER_SET_CHAR_AT),
        crate::native::native_view(PUBLIC_NATIVE, "toString"@, crate::native::mdesc(seq![], Some(crate::class::FieldTypeView::Object("java/lang/String"@))), BUILDER_TO_STRING),
    ]
}

/// `java/lang/StringBuilder` before its methods are listed.
pub open spec fn lib_string_builder_base() -> crate::raw_class::RawClassView {
    crate::raw_class::new_class_view(PUBLIC_NATIVE, "java/lang/StringBuilder"@, "java/lang/Object"@)
}

/// The methods of `java/util/Random`, in the order they are filed.
pub open spec fn lib_random_methods() -> Seq<crate::raw_class::RawMethodView> {
    seq![
        crate::native::native_view(PUBLIC_NATIVE, "<init>"@, crate::native::mdesc(seq![], None), RANDOM_INIT),
        crate::native::native_view(PUBLIC_NATIVE, "nextInt"@, crate::native::mdesc(seq![crate::class::FieldTypeView::Int], Some(crate::class::FieldTypeView::Int)), RANDOM_NEXT_INT),
    ]
}

/// `java/util/Random` before its methods are listed.
pub open spec fn lib_random_base() -> crate::raw_class::RawClassView {
    crate::raw_class::new_class_view(PUBLIC_NATIVE, "java/util/Random"@, "java/lang/Object"@)
}

/// The methods of `java/io/PrintStream`, in the order they are filed.
pub open spec fn lib_print_stream_methods() -> Seq<crate::raw_class::RawMethodView> {
    seq![
        crate::native::native_view(PUBLIC_NATIVE, "println"@, crate::native::mdesc(seq![crate::class::FieldTypeView::Object("java/lang/String"@)], None), PRINTLN_OBJECT),
        crate::native::native_view(PUBLIC_NATIVE, "println"@, crate::native::mdesc(seq![crate::class::FieldTypeView::Object("java/lang/Object"@)], None), PRINTLN_OBJECT),
        crate::native::native_view(PUBLIC_NATIVE, "println"@, crate::native::mdesc(seq![], None), PRINTLN_EMPTY),
        crate::native::native_view(PUBLIC_NATIVE, "println"@, crate::native::mdesc(seq![crate::class::FieldTypeView::Float], None), PRINTLN_FLOAT),
        crate::native::native_view(PUBLIC_NATIVE, "println"@, crate::native::mdesc(seq![crate::class::FieldTypeView::Int], None), PRINTLN_INT),
        crate::native::native_view(PUBLIC_NATIVE, "println"@, crate::native::mdesc(seq![crate::class::FieldTypeView::Boolean], None), PRINTLN_BOOL),
        crate::native::native_view(PUBLIC_NATIVE, "println"@, crate::native::mdesc(seq![crate::class::FieldTypeView::Char], None), PRINTLN_CHAR),
        crate::native::native_view(PUBLIC_NATIVE, "println"@, crate::native::mdesc(seq![crate::class::FieldTypeView::Long], None), PRINTLN_LONG),
    ]
}

/// `java/io/PrintStream` before its methods are listed.
pub open spec fn lib_print_stream_base() -> crate::raw_class::RawClassView {
    crate::raw_class::new_class_view(PUBLIC_NATIVE, "java/io/PrintStream"@, "java/lang/Object"@)
}

/// The methods of `java/lang/System`, in the order they are filed.
pub open spec fn lib_system_methods() -> Seq<crate::raw_class::RawMethodView> {
    seq![
        crate::native::native_view(PUBLIC_STATIC_NATIVE, "<clinit>"@, crate::native::mdesc(seq![], None), SYSTEM_CLINIT),
        crate::native::native_view(PUBLIC_NATIVE, "arraycopy"@, crate::native::mdesc(seq![crate::class::FieldTypeView::Object("java/lang/Object"@), crate::class::FieldTypeView::Int, crate::class::FieldTypeView::Object("java/lang/Object"@), crate::class::FieldTypeView::Int, crate::class::FieldTypeView::Int], None), ARRAYCOPY),
    ]
}

/// `java/lang/System` before its methods are listed.
pub open spec fn lib_system_base() -> crate::raw_class::RawClassView {
    crate::raw_class::RawClassView {
        statics: seq![(crate::native::lib_field(PUBLIC_NATIVE, "out"@, crate::class::FieldTypeView::Object("java/io/PrintStream"@)), 0usize)],
        static_data: seq![crate::data::NULL],
        ..crate::raw_class::new_class_view(PUBLIC_NATIVE, "java/lang/System"@, "java/lang/Object"@)
    }
}

/// The methods of `java/lang/Math`, in the order they are filed.
pub open spec fn lib_math_methods() -> Seq<crate::raw_class::RawMethodView> {
    seq![
        crate::native::native_view(PUBLIC_STATIC_NATIVE, "sqrt"@, crate::native::mdesc(seq![crate::class::FieldTypeView::Double], Some(crate::class::FieldTypeView::Double)), MATH_SQRT),
    ]
}

/// `java/lang/Math` before its methods are listed.
pub open spec fn lib_math_base() -> crate::raw_class::RawClassView {
    crate::raw_class::new_class_view(PUBLIC_NATIVE, "java/lang/Math"@, "java/lang/Object"@)
}

/// The method area after filing the methods of the library, in order.
pub open spec fn lib_library_methods_filed(ma: Seq<(crate::data::MethodKey, (Seq<char>, crate::raw_class::RawMethodView))>) -> Seq<(crate::data::MethodKey, (Seq<char>, crate::raw_class::RawMethodView))> {
    let a = ma;
    let a = crate::native::file_methods(a, "java/lang/Object"@, lib_object_methods());
    let a = crate::native::file_methods(a, "java/lang/Enum"@, lib_enum_methods());
    let a = crate::native::file_methods(a, "java/lang/Array"@, lib_array_methods());
    let a = crate::native::primitives::wrappers_filed(a, 8);
    let a = crate::native::file_methods(a, "java/util/Arrays"@, lib_arrays_methods());
    let a = crate::native::file_methods(a, "java/lang/String"@, lib_string_methods());
    let a = crate::native::file_methods(a, "java/lang/StringBuilder"@, lib_string_builder_methods());
    let a = crate::native::file_methods(a, "java/util/Random"@, lib_random_methods());
    let a = crate::native::file_methods(a, "java/io/PrintStream"@, lib_print_stream_methods());
    let a = crate::native::file_methods(a, "java/lang/System"@, lib_system_methods());
    let a = crate::native::file_methods(a, "java/lang/Math"@, lib_math_methods());
    let a = crate::native::throwable::lib_throwables_methods_filed(a);
    let a = crate::native::reflect::lib_class_class_methods_filed(a);
    let a = crate::native::collections::lib_collections_methods_filed(a);
    let a = crate::native::function::lib_functions_methods_filed(a);
    let a = crate::native::stream::lib_stream_methods_filed(a);
    a
}

/// The class area after filing the library, in order.
pub open spec fn lib_library_classes_filed(ca: Seq<(Seq<char>, crate::raw_class::RawClassView)>) -> Seq<(Seq<char>, crate::raw_class::RawClassView)> {
    let a = ca;
    let a = crate::data::insert_entry(a, "java/lang/Object"@, crate::native::with_method_names(lib_object_base(), lib_object_methods()));
    let a = crate::data::insert_entry(a, "java/lang/Enum"@, crate::native::with_method_names(lib_enum_base(), lib_enum_methods()));
    let a = crate::data::insert_entry(a, "java/lang/Array"@, crate::native::with_method_names(lib_array_base(), lib_array_methods()));
    let a = crate::native::primitives::wrapper_classes_filed(a, 8);
    let a = crate::data::insert_entry(a, "java/util/Arrays"@, crate::native::with_method_names(lib_arrays_base(), lib_arrays_methods()));
    let a = crate::data::insert_entry(a, "java/lang/String"@, crate::native::with_method_names(lib_string_base(), lib_string_methods()));
    let a = crate::data::insert_entry(a, "java/lang/StringBuilder"@, crate::native::with_method_names(lib_string_builder_base(), lib_string_builder_methods()));
    let a = crate::data::insert_entry(a, "java/util/Random"@, crate::native::with_method_names(lib_random_base(), lib_random_methods()));
    let a = crate::data::insert_entry(a, "java/io/PrintStream"@, crate::native::with_method_names(lib_print_stream_base(), lib_print_stream_methods()));
    let a = crate::data::insert_entry(a, "java/lang/System"@, crate::native::with_method_names(lib_system_base(), lib_system_methods()));
    let a = crate::data::insert_entry(a, "java/lang/Math"@, crate::native::with_method_names(lib_math_base(), lib_math_methods()));
    let a = crate::native::throwable::lib_throwables_classes_filed(a);
    let a = crate::native::reflect::lib_class_class_classes_filed(a);
    let a = crate::native::collections::lib_collections_classes_filed(a);
    let a = crate::native::function::lib_functions_classes_filed(a);
    let a = crate::native::stream::lib_stream_classes_filed(a);
    a
}

/// Files the classes of the library that the machine provides, and their
/// native methods: `Object`, `Enum`, `Array`, `Arrays`, `String`,
/// `StringBuilder`, `Random`, `PrintStream`, `System`, `Math`, the
/// exceptions, `Class`, the collections and the wrappers of the primitive
/// types. Every class filed or replaced has all its methods filed, and no
/// class that was filed goes.
#[verifier::rlimit(50)]
pub fn add_native_methods(method_area: &mut WorkingMethodArea, class_area: &mut WorkingClassArea)
    ensures
        final(method_area)@ == lib_library_methods_filed(old(method_area)@),
        final(class_area)@ == lib_library_classes_filed(old(class_area)@),
        keys_kept(old(class_area)@, final(class_area)@),
        natives_filed(final(method_area)@, final(class_area)@, old(class_area)@),
        lookup_entry(final(class_area)@, "java/lang/Object"@) is Some,
        lookup_entry(final(class_area)@, "java/lang/Enum"@) is Some,
        lookup_entry(final(class_area)@, "java/lang/Array"@) is Some,
        lookup_entry(final(class_area)@, "java/util/Arrays"@) is Some,
        lookup_entry(final(class_area)@, "java/lang/String"@) is Some,
        lookup_entry(final(class_area)@, "java/lang/StringBuilder"@) is Some,
        lookup_entry(final(class_area)@, "java/util/Random"@) is Some,
        lookup_entry(final(class_area)@, "java/io/PrintStream"@) is Some,
        lookup_entry(final(class_area)@, "java/lang/System"@) is Some,
        lookup_entry(final(class_area)@, "java/lang/Math"@) is Some,
{
    let ghost start = class_area@;
    assert(natives_filed(method_area@, class_area@, start));

    let object = library_class(PUBLIC_NATIVE, "java/lang/Object", "java/lang/Object");
    let mut ms: Vec<RawMethod> = Vec::new();
    add_method(&mut ms, native_method(PUBLIC_NATIVE, "<init>", no_args(None), NOOP));
    add_method(&mut ms, native_method(PUBLIC_NATIVE, "toString", no_args(Some(string_type())), OBJECT_TO_STRING));
    add_method(&mut ms, native_method(PUBLIC_NATIVE, "hashCode", no_args(Some(FieldType::Int)), OBJECT_HASH_CODE));
    add_method(
        &mut ms,
        native_method(PUBLIC_NATIVE, "getClass", no_args(Some(object_type("java/lang/Class"))), OBJECT_GET_CLASS),
    );
    proof {
        assert(crate::raw_class::raw_methods_view(ms@) =~~= lib_object_methods());
        assert(object@ =~~= lib_object_base());
    }
    file_with_methods(object, ms, method_area, class_area, Ghost(start));

    let mut enum_class = library_class(PUBLIC_ABSTRACT_NATIVE, "java/lang/Enum", "java/lang/Object");
    enum_class.field_size = 2;
    enum_class.fields = vec![
        (library_field(PUBLIC_NATIVE, "enum$name", string_type()), 0),
        (library_field(PUBLIC_NATIVE, "enum$id", FieldType::Int), 1),
    ];
    let mut ms: Vec<RawMethod> = Vec::new();
    add_method(
        &mut ms,
        native_method(PUBLIC_NATIVE, "<init>", descriptor(vec![string_type(), FieldType::Int], None), ENUM_INIT),
    );
    add_method(&mut ms, native_method(PUBLIC_NATIVE, "toString", no_args(Some(any_type())), ENUM_NAME));
    add_method(&mut ms, native_method(PUBLIC_NATIVE, "name", no_args(Some(any_type())), ENUM_NAME));
    proof {
        assert(crate::raw_class::raw_methods_view(ms@) =~~= lib_enum_methods());
        assert(enum_class@.fields =~= lib_enum_base().fields);
        assert(enum_class@.statics =~= lib_enum_base().statics);
        assert(enum_class@.static_data =~= lib_enum_base().static_data);
        assert(enum_class@ =~~= lib_enum_base());
    }
    file_with_methods(enum_class, ms, method_area, class_area, Ghost(start));

    let array = library_class(PUBLIC_NATIVE, "java/lang/Array", "java/lang/Object");
    let ms: Vec<RawMethod> = Vec::new();
    proof {
        assert(crate::raw_class::raw_methods_view(ms@) =~~= lib_array_methods());
        assert(array@ =~~= lib_array_base());
    }
    file_with_methods(array, ms, method_area, class_area, Ghost(start));

    let arrays = library_class(PUBLIC_NATIVE, "java/util/Arrays", "java/lang/Object");
    let mut ms: Vec<RawMethod> = Vec::new();
    add_method(
        &mut ms,
        native_method(
            PUBLIC_STATIC_NATIVE,
            "toString",
            descriptor(vec![FieldType::Array(Box::new(FieldType::Int))], Some(string_type())),
            ARRAYS_TO_STRING,
        ),
    );
    add_method(
        &mut ms,
        native_method(
            PUBLIC_STATIC_NATIVE,
            "toString",
            descriptor(vec![FieldType::Array(Box::new(any_type()))], Some(string_type())),
            ARRAYS_TO_STRING,
        ),
    );
    add_method(
        &mut ms,
        native_method(
            PUBLIC_STATIC_NATIVE,
            "deepToString",
            descriptor(vec![FieldType::Array(Box::new(any_type()))], Some(string_type())),
            ARRAYS_DEEP_TO_STRING,
        ),
    );
    proof {
        assert(crate::raw_class::raw_methods_view(ms@) =~~= lib_arrays_listed());
    }
    crate::native::primitives::make_primitives(&mut ms, method_area, class_area, Ghost(start));
    proof {
        assert(crate::raw_class::raw_methods_view(ms@) =~~= lib_arrays_methods());
        assert(arrays@ =~~= lib_arrays_base());
    }
    file_with_methods(arrays, ms, method_area, class_area, Ghost(start));

    let string = library_class(PUBLIC_NATIVE, "java/lang/String", "java/lang/Object");
    let mut ms: Vec<RawMethod> = Vec::new();
    add_method(&mut ms, native_method(PUBLIC_NATIVE, "length", no_args(Some(FieldType::Int)), STRING_LENGTH));
    add_method(
        &mut ms,
        native_method(PUBLIC_NATIVE, "charAt", descriptor(vec![FieldType::Int], Some(FieldType::Char)), STRING_CHAR_AT),
    );
    add_method(
        &mut ms,
        native_method(PUBLIC_NATIVE, "valueOf", descriptor(vec![any_type()], Some(string_type())), STRING_VALUE_OF),
    );
    add_method(&mut ms, native_method(PUBLIC_NATIVE, "toString", no_args(Some(string_type())), STRING_TO_STRING));
    add_method(
        &mut ms,
        native_method(
            PUBLIC_NATIVE,
            "compareTo",
            descriptor(vec![string_type()], Some(FieldType::Int)),
            STRING_COMPARE_TO,
        ),
    );
    add_method(
        &mut ms,
        native_method(
            PUBLIC_NATIVE,
            "contains",
            descriptor(vec![object_type("java/lang/CharSequence")], Some(FieldType::Boolean)),
            STRING_CONTAINS,
        ),
    );
    proof {
        assert(crate::raw_class::raw_methods_view(ms@) =~~= lib_string_methods());
        assert(string@ =~~= lib_string_base());
    }
    file_with_methods(string, ms, method_area, class_area, Ghost(start));

    let builder = library_class(PUBLIC_NATIVE, "java/lang/StringBuilder", "java/lang/Object");
    let mut ms: Vec<RawMethod> = Vec::new();
    add_method(&mut ms, native_method(PUBLIC_NATIVE, "<init>", descriptor(vec![string_type()], None), BUILDER_INIT));
    add_method(
        &mut ms,
        native_method(
            PUBLIC_NATIVE,
            "setCharAt",
            descriptor(vec![FieldType::Int, FieldType::Char], None),
            BUILDER_SET_CHAR_AT,
        ),
    );
    add_method(&mut ms, native_method(PUBLIC_NATIVE, "toString", no_args(Some(string_type())), BUILDER_TO_STRING));
    proof {
        assert(crate::raw_class::raw_methods_view(ms@) =~~= lib_string_builder_methods());
        assert(builder@ =~~= lib_string_builder_base());
    }
    file_with_methods(builder, ms, method_area, class_area, Ghost(start));

    let random = library_class(PUBLIC_NATIVE, "java/util/Random", "java/lang/Object");
    let mut ms: Vec<RawMethod> = Vec::new();
    add_method(&mut ms, native_method(PUBLIC_NATIVE, "<init>", no_args(None), RANDOM_INIT));
    add_method(
        &mut ms,
        native_method(PUBLIC_NATIVE, "nextInt", descriptor(vec![FieldType::Int], Some(FieldType::Int)), RANDOM_NEXT_INT),
    );
    proof {
        assert(crate::raw_class::raw_methods_view(ms@) =~~= lib_random_methods());
        assert(random@ =~~= lib_random_base());
    }
    file_with_methods(random, ms, method_area, class_area, Ghost(start));

    let printstream = library_class(PUBLIC_NATIVE, "java/io/PrintStream", "java/lang/Object");
    let mut ms: Vec<RawMethod> = Vec::new();
    add_method(&mut ms, native_method(PUBLIC_NATIVE, "println", descriptor(vec![string_type()], None), PRINTLN_OBJECT));
    add_method(&mut ms, native_method(PUBLIC_NATIVE, "println", descriptor(vec![any_type()], None), PRINTLN_OBJECT));
    add_method(&mut ms, native_method(PUBLIC_NATIVE, "println", no_args(None), PRINTLN_EMPTY));
    add_method(&mut ms, native_method(PUBLIC_NATIVE, "println", descriptor(vec![FieldType::Float], None), PRINTLN_FLOAT));
    add_method(&mut ms, native_method(PUBLIC_NATIVE, "println", descriptor(vec![FieldType::Int], None), PRINTLN_INT));
    add_method(&mut ms, native_method(PUBLIC_NATIVE, "println", descriptor(vec![FieldType::Boolean], None), PRINTLN_BOOL));
    add_method(&mut ms, native_method(PUBLIC_NATIVE, "println", descriptor(vec![FieldType::Char], None), PRINTLN_CHAR));
    add_method(&mut ms, native_method(PUBLIC_NATIVE, "println", descriptor(vec![FieldType::Long], None), PRINTLN_LONG));
    proof {
        assert(crate::raw_class::raw_methods_view(ms@) =~~= lib_print_stream_methods());
        assert(printstream@ =~~= lib_print_stream_base());
    }
    file_with_methods(printstream, ms, method_area, class_area, Ghost(start));

    let mut system = library_class(PUBLIC_NATIVE, "java/lang/System", "java/lang/Object");
    system.static_data.push(crate::data::NULL);
    system.statics.push((library_field(PUBLIC_NATIVE, "out", object_type("java/io/PrintStream")), 0));
    let mut ms: Vec<RawMethod> = Vec::new();
    add_method(&mut ms, native_method(PUBLIC_STATIC_NATIVE, "<clinit>", no_args(None), SYSTEM_CLINIT));
    add_method(
        &mut ms,
        native_method(
            PUBLIC_NATIVE,
            "arraycopy",
            descriptor(vec![any_type(), FieldType::Int, any_type(), FieldType::Int, FieldType::Int], None),
            ARRAYCOPY,
        ),
    );
    proof {
        assert(crate::raw_class::raw_methods_view(ms@) =~~= lib_system_methods());
        assert(system@.fields =~= lib_system_base().fields);
        assert(system@.statics =~= lib_system_base().statics);
        assert(system@.static_data =~= lib_system_base().static_data);
        assert(system@ =~~= lib_system_base());
    }
    file_with_methods(system, ms, method_area, class_area, Ghost(start));

    let math = library_class(PUBLIC_NATIVE, "java/lang/Math", "java/lang/Object");
    let mut ms: Vec<RawMethod> = Vec::new();
    add_method(
        &mut ms,
        native_method(PUBLIC_STATIC_NATIVE, "sqrt", descriptor(vec![FieldType::Double], Some(FieldType::Double)), MATH_SQRT),
    );
    proof {
        assert(crate::raw_class::raw_methods_view(ms@) =~~= lib_math_methods());
        assert(math@ =~~= lib_math_base());
    }
    file_with_methods(math, ms, method_area, class_area, Ghost(start));

    crate::native::throwable::add_throwables(method_area, class_area, Ghost(start));
    crate::native::reflect::add_class_class(method_area, class_area, Ghost(start));
    crate::native::collections::add_native_collections(method_area, class_area, Ghost(start));
    crate::native::function::add_functions(method_area, class_area, Ghost(start));
    crate::native::stream::add_stream(method_area, class_area, Ghost(start));
}

/// Runs one step of the native method number `id` in the running frame:
/// see each native method's own function for what it does. The host runs
/// those of `is_host_native` (nothing changes here); a number with no native
/// method, or one declared but not provided, is refused.
pub fn run_native(thread: &mut Thread, id: u32) -> (r: Result<NativeOutcome, Error>)
    requires
        old(thread).wf(),
    ensures
        final(thread).wf(),
        is_host_native(id) ==> (r matches Ok(NativeOutcome::Host) && *final(thread) == *old(thread)),
        id == TODO ==> r == Err::<NativeOutcome, Error>(Error::Misc(Fault::Unimplemented)),
        id == crate::object::LAMBDA_NATIVE && !is_host_native(id) && id != TODO ==> (old(
            thread,
        ).stackframe@.locals.len() == 0 ==> r == Err::<NativeOutcome, Error>(Error::Misc(Fault::LocalOutOfRange)))
            && (old(thread).stackframe@.locals.len() > 0 ==> match lambda_of(
            old(thread).heap@,
            old(thread).stackframe@.locals[0],
        ) {
            Err(f) => r == Err::<NativeOutcome, Error>(Error::Misc(f)) && *final(thread) == *old(thread),
            Ok(l) => (r is Ok ==> r == Ok::<NativeOutcome, Error>(NativeOutcome::Ran))
                && crate::dynamic::lambda_run_effect(*old(thread), *final(thread), crate::thread::unit_of(r), l),
        }),
{
    if host_native(id) {
        return Ok(NativeOutcome::Host);
    }
    if id == TODO {
        return Err(Error::Misc(Fault::Unimplemented));
    }
    if id >= primitives::PRIMITIVE_BASE && id < primitives::PRIMITIVE_BASE + 64 {
        let kind = (id - primitives::PRIMITIVE_BASE) / 8;
        let op = (id - primitives::PRIMITIVE_BASE) % 8;
        let r = if op == primitives::VALUE_OF {
            primitives::wrapper_value_of(thread, kind)
        } else if op == primitives::INIT {
            primitives::wrapper_init(thread, kind)
        } else if op == primitives::TO_STRING {
            if kind == primitives::FLOAT || kind == primitives::DOUBLE {
                return Ok(NativeOutcome::Host);
            }
            primitives::wrapper_to_string(thread, kind)
        } else if op == primitives::VALUE {
            primitives::wrapper_value(thread, kind)
        } else if op == primitives::PARSE {
            if kind == primitives::FLOAT || kind == primitives::DOUBLE {
                return Ok(NativeOutcome::Host);
            }
            primitives::wrapper_parse(thread, kind)
        } else {
            Err(Error::Misc(Fault::Unimplemented))
        };
        return match r {
            Ok(()) => Ok(NativeOutcome::Ran),
            Err(e) => Err(e),
        };
    }
    if id == PRINTLN_OBJECT || id == PRINTLN_CHAR || id == PRINTLN_BOOL || id == PRINTLN_INT || id == PRINTLN_LONG
        || id == PRINTLN_EMPTY {
        let line = if id == PRINTLN_OBJECT {
            string::println_object(thread)
        } else if id == PRINTLN_CHAR {
            object::println_char(thread)
        } else if id == PRINTLN_BOOL {
            object::println_bool(thread)
        } else if id == PRINTLN_INT {
            object::println_int(thread)
        } else if id == PRINTLN_LONG {
            object::println_long(thread)
        } else {
            object::println_empty(thread)
        };
        return match line {
            Ok(Some(l)) => Ok(NativeOutcome::Print(l)),
            Ok(None) => Ok(NativeOutcome::Ran),
            Err(e) => Err(e),
        };
    }
    if id == crate::object::LAMBDA_NATIVE {
        return match run_lambda(thread) {
            Ok(()) => Ok(NativeOutcome::Ran),
            Err(e) => Err(e),
        };
    }
    let r = if id == NOOP {
        object::noop(thread)
    } else if id == OBJECT_TO_STRING {
        object::object_to_string(thread)
    } else if id == OBJECT_GET_CLASS {
        object::object_get_class(thread)
    } else if id == ENUM_INIT {
        object::enum_init(thread)
    } else if id == ENUM_NAME {
        object::enum_name(thread)
    } else if id == ARRAYS_TO_STRING {
        arrays::arrays_to_string(thread)
    } else if id == ARRAYS_DEEP_TO_STRING {
        arrays::arrays_deep_to_string(thread)
    } else if id == STRING_LENGTH {
        string::string_length(thread)
    } else if id == STRING_CHAR_AT {
        string::string_char_at(thread)
    } else if id == STRING_VALUE_OF {
        string::string_value_of(thread)
    } else if id == STRING_TO_STRING {
        string::string_to_string(thread)
    } else if id == STRING_COMPARE_TO {
        string::string_compare_to(thread)
    } else if id == STRING_CONTAINS {
        string::string_contains(thread)
    } else if id == BUILDER_INIT {
        string_builder::builder_init(thread)
    } else if id == BUILDER_SET_CHAR_AT {
        string_builder::builder_set_char_at(thread)
    } else if id == BUILDER_TO_STRING {
        string_builder::builder_to_string(thread)
    } else if id == RANDOM_NEXT_INT {
        object::next_int(thread)
    } else if id == SYSTEM_CLINIT {
        object::system_clinit(thread)
    } else if id == ARRAYCOPY {
        arrays::arraycopy(thread)
    } else if id == ILLEGAL_ARGUMENT_TO_STRING {
        object::fixed_text(thread, "java.lang.IllegalArgumentException")
    } else if id == ARITHMETIC_TO_STRING {
        object::fixed_text(thread, "java.lang.ArithmeticException")
    } else if id == CLASS_GET_NAME {
        object::class_get_name(thread)
    } else if id == collections::HASH_MAP_INIT {
        collections::hash_map_init(thread)
    } else if id == collections::HASH_MAP_PUT {
        collections::hash_map_put(thread)
    } else if id == collections::HASH_MAP_GET {
        collections::hash_map_get(thread)
    } else if id == collections::COLLECTION_SIZE {
        collections::collection_size(thread)
    } else if id == collections::HASH_SET_INIT {
        collections::hash_set_init(thread)
    } else if id == collections::HASH_SET_INSERT {
        collections::hash_set_insert(thread)
    } else if id == collections::HASH_SET_CONTAINS {
        collections::hash_set_contains(thread)
    } else if id == collections::ARRAY_LIST_INIT {
        collections::array_list_init(thread)
    } else if id == collections::ARRAY_LIST_APPEND {
        collections::array_list_append(thread)
    } else if id == collections::ARRAY_LIST_ADD {
        collections::array_list_add(thread)
    } else if id == collections::ARRAY_LIST_SORT {
        collections::array_list_sort(thread)
    } else if id == collections::ARRAY_LIST_TO_STRING {
        collections::array_list_to_string(thread)
    } else if id >= function::FUNCTION_COMPOSE_STEP && id <= function::OPTIONAL_TO_STRING {
        run_function_native(thread, id)
    } else if id == stream::STREAM_ALL_MATCH {
        stream::stream_match(thread, stream::Match::AllOf)
    } else if id == stream::STREAM_ANY_MATCH {
        stream::stream_match(thread, stream::Match::AnyOf)
    } else if id == stream::STREAM_NONE_MATCH {
        stream::stream_match(thread, stream::Match::NoneOf)
    } else if id == stream::STREAM_EMPTY {
        stream::stream_empty(thread)
    } else if id == stream::STREAM_FILTER_STEP {
        stream::stream_filter_step(thread)
    } else if id == stream::STREAM_FILTER {
        stream::stream_filter(thread)
    } else if id == stream::STREAM_FOR_EACH {
        stream::stream_for_each(thread)
    } else {
        Err(Error::Misc(Fault::Unimplemented))
    };
    match r {
        Ok(()) => Ok(NativeOutcome::Ran),
        Err(e) => Err(e),
    }
}

/// The lambda that the object `ptr` carries in its first native field.
pub open spec fn lambda_of(h: HeapView, ptr: u32) -> Result<crate::object::LambdaOverrideView, Fault> {
    match crate::heap::object_at(h, ptr as int) {
        None => Err(Fault::NullPointer),
        Some(o) => if o.native_fields.len() > 0 && o.native_fields[0] is Lambda {
            Ok(o.native_fields[0]->Lambda_0)
        } else {
            Err(Fault::WrongObjectKind)
        },
    }
}

/// Runs the method of the lambda object in local 0 (see
/// `LambdaOverride::run`).
pub fn run_lambda(thread: &mut Thread) -> (r: Result<(), Error>)
    requires
        old(thread).wf(),
    ensures
        final(thread).wf(),
        old(thread).stackframe@.locals.len() == 0 ==> r == Err::<(), Error>(Error::Misc(Fault::LocalOutOfRange))
            && *final(thread) == *old(thread),
        old(thread).stackframe@.locals.len() > 0 ==> match lambda_of(
            old(thread).heap@,
            old(thread).stackframe@.locals[0],
        ) {
            Err(f) => r == Err::<(), Error>(Error::Misc(f)) && *final(thread) == *old(thread),
            Ok(l) => crate::dynamic::lambda_run_effect(*old(thread), *final(thread), r, l),
        },
{
    let this = match arg(thread, 0) {
        Ok(v) => v,
        Err(e) => {
            return Err(e);
        },
    };
    let target = match thread.heap.get(this as usize) {
        None => {
            return Err(Error::Misc(Fault::NullPointer));
        },
        Some(o) => {
            if o.native_fields.len() == 0 {
                return Err(Error::Misc(Fault::WrongObjectKind));
            }
            match &o.native_fields[0] {
                crate::object::NativeField::Lambda(l) => l.copy(),
                _ => {
                    return Err(Error::Misc(Fault::WrongObjectKind));
                },
            }
        },
    };
    target.run(thread)
}

/// What the native method of `Function`, `Predicate` or `Optional` with
/// number `id` does to the thread (an unknown number runs `Optional.toString`).
pub open spec fn function_native_effect(t0: &Thread, t1: &Thread, r: Result<(), Error>, id: u32) -> bool {
    if id == function::FUNCTION_COMPOSE_STEP {
        function::function_compose_step_effect(t0, t1, r)
    } else if id == function::FUNCTION_COMPOSE {
        function::function_compose_effect(t0, t1, r)
    } else if id == function::FUNCTION_AND_THEN {
        function::function_and_then_effect(t0, t1, r)
    } else if id == function::FUNCTION_CLINIT {
        function::function_clinit_effect(t0, t1, r)
    } else if id == function::FUNCTION_IDENTITY {
        function::function_identity_effect(t0, t1, r)
    } else if id == function::FUNCTION_IDENTITY_STEP {
        function::function_identity_step_effect(t0, t1, r)
    } else if id == function::PREDICATE_NEGATIVE {
        function::predicate_negative_effect(t0, t1, r)
    } else if id == function::PREDICATE_NEGATE {
        function::predicate_negate_effect(t0, t1, r)
    } else if id == function::PREDICATE_IS_EQUAL {
        function::predicate_is_equal_effect(t0, t1, r)
    } else if id == function::PREDICATE_AND_STEP {
        function::predicate_both_effect(t0, t1, r, true)
    } else if id == function::PREDICATE_OR_STEP {
        function::predicate_both_effect(t0, t1, r, false)
    } else if id == function::PREDICATE_AND {
        function::predicate_combine_effect(t0, t1, r, true)
    } else if id == function::PREDICATE_OR {
        function::predicate_combine_effect(t0, t1, r, false)
    } else if id == function::OPTIONAL_CLINIT {
        function::optional_clinit_effect(t0, t1, r)
    } else if id == function::OPTIONAL_EMPTY {
        function::optional_empty_effect(t0, t1, r)
    } else if id == function::OPTIONAL_OF {
        function::optional_of_effect(t0, t1, r)
    } else if id == function::OPTIONAL_OF_NULLABLE {
        function::optional_of_nullable_effect(t0, t1, r)
    } else if id == function::OPTIONAL_EQUALS {
        function::optional_equals_effect(t0, t1, r)
    } else if id == function::OPTIONAL_FILTER {
        function::optional_filter_effect(t0, t1, r)
    } else if id == function::OPTIONAL_HASH_CODE {
        function::optional_hash_code_effect(t0, t1, r)
    } else if id == function::OPTIONAL_IS_EMPTY {
        function::optional_check_effect(t0, t1, r, true)
    } else if id == function::OPTIONAL_IS_PRESENT {
        function::optional_check_effect(t0, t1, r, false)
    } else {
        function::optional_to_string_effect(t0, t1, r)
    }
}

/// Runs a native method of `Function`, `Predicate` or `Optional`.
fn run_function_native(thread: &mut Thread, id: u32) -> (r: Result<(), Error>)
    requires
        old(thread).wf(),
    ensures
        final(thread).wf(),
        function_native_effect(old(thread), final(thread), r, id),
{
    if id == function::FUNCTION_COMPOSE_STEP {
        function::function_compose_step(thread)
    } else if id == function::FUNCTION_COMPOSE {
        function::function_compose(thread)
    } else if id == function::FUNCTION_AND_THEN {
        function::function_and_then(thread)
    } else if id == function::FUNCTION_CLINIT {
        function::function_clinit(thread)
    } else if id == function::FUNCTION_IDENTITY {
        function::function_identity(thread)
    } else if id == function::FUNCTION_IDENTITY_STEP {
        function::function_identity_step(thread)
    } else if id == function::PREDICATE_NEGATIVE {
        function::predicate_negative(thread)
    } else if id == function::PREDICATE_NEGATE {
        function::predicate_negate(thread)
    } else if id == function::PREDICATE_IS_EQUAL {
        function::predicate_is_equal(thread)
    } else if id == function::PREDICATE_AND_STEP {
        function::predicate_both(thread, true)
    } else if id == function::PREDICATE_OR_STEP {
        function::predicate_both(thread, false)
    } else if id == function::PREDICATE_AND {
        function::predicate_combine(thread, true)
    } else if id == function::PREDICATE_OR {
        function::predicate_combine(thread, false)
    } else if id == function::OPTIONAL_CLINIT {
        function::optional_clinit(thread)
    } else if id == function::OPTIONAL_EMPTY {
        function::optional_empty(thread)
    } else if id == function::OPTIONAL_OF {
        function::optional_of(thread)
    } else if id == function::OPTIONAL_OF_NULLABLE {
        function::optional_of_nullable(thread)
    } else if id == function::OPTIONAL_EQUALS {
        function::optional_equals(thread)
    } else if id == function::OPTIONAL_FILTER {
        function::optional_filter(thread)
    } else if id == function::OPTIONAL_HASH_CODE {
        function::optional_hash_code(thread)
    } else if id == function::OPTIONAL_IS_EMPTY {
        function::optional_check(thread, true)
    } else if id == function::OPTIONAL_IS_PRESENT {
        function::optional_check(thread, false)
    } else {
        function::optional_to_string(thread)
    }
}

/// The running frame's local `i` (the native method's argument words come
/// first).
pub fn arg(t: &Thread, i: usize) -> (r: Result<u32, Error>)
    ensures
        i < t.stackframe@.locals.len() ==> r == Ok::<u32, Error>(t.stackframe@.locals[i as int]),
        i >= t.stackframe@.locals.len() ==> r == Err::<u32, Error>(Error::Misc(Fault::LocalOutOfRange)),
{
    if i < t.stackframe.locals.len() {
        Ok(t.stackframe.locals[i])
    } else {
        Err(Error::Misc(Fault::LocalOutOfRange))
    }
}

/// Whether there is a caller to return to, with a return address on top of
/// its operand stack.
pub open spec fn has_caller(t: &Thread) -> bool {
    t.stack@.len() > 0 && t.stack@.last()@.stack.len() > 0
}

/// The thread `new` is `old` after returning the words `ws` to the caller:
/// its frame runs again with `ws` in place of the return address, from that
/// address.
pub open spec fn returned(old: &Thread, new: &Thread, ws: Seq<u32>) -> bool {
    &&& returned_frames(old, new, ws)
    &&& new.class_area@ == old.class_area@
    &&& new.method_area@ == old.method_area@
}

/// The frames and program counter of `new` are those of `old` after
/// returning the words `ws` to the caller.
pub open spec fn returned_frames(old: &Thread, new: &Thread, ws: Seq<u32>) -> bool {
    let caller = old.stack@.last()@;
    &&& old.stack@.len() > 0
    &&& frames_view(new.stack@) == frames_view(old.stack@.drop_last())
    &&& new.stackframe@ == with_stack(caller, caller.stack.drop_last() + ws)
    &&& new.pc_register == caller.stack.last() as usize
}

/// The heap `h` after the returned word `v` is counted once more, when the
/// running method returns a reference.
pub open spec fn counted(t: &Thread, h: HeapView, v: u32) -> Result<HeapView, Fault> {
    if t.stackframe@.method.descriptor.return_type->Some_0.is_reference() {
        spec_inc_ref(h, v)
    } else {
        Ok(h)
    }
}

/// The outcome of returning the word `v`, from `t` whose heap has become
/// `h`: it comes back when there is a caller and the method returns a value,
/// and the heap counts `v` when it is a reference.
pub open spec fn word_returned(t: &Thread, h: HeapView, new: &Thread, v: u32, r: Result<(), Error>) -> bool {
    if has_caller(t) && t.stackframe@.method.descriptor.return_type is Some {
        match counted(t, h, v) {
            Ok(h2) => r is Ok && returned(t, new, seq![v]) && new.heap@ == h2,
            Err(f) => r == Err::<(), Error>(Error::Misc(f)),
        }
    } else {
        r is Err
    }
}

/// The outcome of returning nothing from `t` whose heap has become `h`.
pub open spec fn void_returned(t: &Thread, h: HeapView, new: &Thread, r: Result<(), Error>) -> bool {
    if t.stack@.len() == 0 {
        r == Err::<(), Error>(Error::ThreadKill)
    } else if has_caller(t) {
        r is Ok && returned(t, new, seq![]) && new.heap@ == h
    } else {
        r is Err
    }
}

/// The outcome of returning the 64-bit value `v` from `t` whose heap has
/// become `h`: its high word, then its low word.
pub open spec fn long_returned(t: &Thread, h: HeapView, new: &Thread, v: u64, r: Result<(), Error>) -> bool {
    if has_caller(t) {
        r is Ok && returned(t, new, seq![hi_word(v), lo_word(v)]) && new.heap@ == h
    } else {
        r is Err
    }
}

/// The thread `new` is `old` calling the method `m` of `c` with `obj` as its
/// first local, `addr` pushed as the return address of the running frame.
pub open spec fn called_on(old: &Thread, new: &Thread, c: ClassView, m: MethodView, obj: u32, addr: u32) -> bool {
    let f = fresh_frame(m, c);
    &&& frames_view(new.stack@) == frames_view(old.stack@).push(
        with_stack(old.stackframe@, old.stackframe@.stack.push(addr)),
    )
    &&& new.stackframe@ == StackFrameView { locals: f.locals.update(0, obj), ..f }
    &&& new.pc_register == 0
    &&& new.heap@ == old.heap@
    &&& new.class_area@ == old.class_area@
    &&& new.method_area@ == old.method_area@
}

/// Calls the method `name` with descriptor `desc` that the object `obj` runs
/// (see `spec_resolve`), with `obj` as its first local; the running frame
/// keeps `addr` on its operand stack as the address to come back to. When no
/// method is found nothing changes.
pub fn call_on(thread: &mut Thread, obj: u32, name: &[char], desc: &MethodDescriptor, addr: u32) -> (r: Result<(), Error>)
    requires
        old(thread).wf(),
    ensures
        final(thread).wf(),
        match spec_resolve(
            old(thread).heap@,
            old(thread).class_area@.classes,
            old(thread).method_area@,
            obj,
            name@,
            desc@,
        ) {
            Err(e) => r matches Err(er) && er@ == e && *final(thread) == *old(thread),
            Ok((c, m)) => r is Ok && called_on(old(thread), final(thread), c, m, obj, addr),
        },
{
    let (class, method) = thread.resolve_method(obj, name, desc)?;
    thread.stackframe.operand_stack.push(addr);
    let ghost pushed = thread.stackframe@;
    thread.invoke_method(method, class);
    thread.stackframe.locals.set(0, obj);
    proof {
        assert(pushed == with_stack(old(thread).stackframe@, old(thread).stackframe@.stack.push(addr)));
    }
    Ok(())
}

/// What running a native method asks of the host: nothing, a line to print,
/// or to run the method itself (see `is_host_native`).
pub enum NativeOutcome {
    Ran,
    Print(Vec<char>),
    Host,
}

impl Thread {
    /// Returns the word `v` from the running native method (see `word_returned`).
    pub fn return_word(&mut self, v: u32) -> (r: Result<(), Error>)
        requires
            old(self).wf(),
        ensures
            final(self).wf(),
            word_returned(old(self), old(self).heap@, final(self), v, r),
    {
        self.stackframe.operand_stack.push(v);
        let ghost pushed = self.stackframe@.stack;
        assert(pushed.last() == v);
        assert(pushed.drop_last() =~= old(self).stackframe@.stack);
        match self.return_one() {
            Ok(()) => {
                proof {
                    let caller = old(self).stack@.last()@;
                    assert(caller.stack.drop_last().push(v) =~= caller.stack.drop_last() + seq![v]);
                }
                Ok(())
            },
            Err(f) => Err(Error::Misc(f)),
        }
    }

    /// Returns nothing from the running native method (see `void_returned`).
    pub fn return_nothing(&mut self) -> (r: Result<(), Error>)
        requires
            old(self).wf(),
        ensures
            final(self).wf(),
            void_returned(old(self), old(self).heap@, final(self), r),
    {
        let r = self.return_void();
        proof {
            if r is Ok {
                let caller = old(self).stack@.last()@;
                assert(caller.stack.drop_last() + seq![] =~= caller.stack.drop_last());
                assert(with_stack(caller, caller.stack.drop_last()) == StackFrameView {
                    stack: caller.stack.drop_last(),
                    ..caller
                });
            }
        }
        r
    }

    /// Returns the 64-bit value `v` from the running native method (see
    /// `long_returned`).
    pub fn return_long(&mut self, v: u64) -> (r: Result<(), Error>)
        requires
            old(self).wf(),
        ensures
            final(self).wf(),
            long_returned(old(self), old(self).heap@, final(self), v, r),
    {
        let hi = (v >> 32) as u32;
        let lo = (v & 0xFFFF_FFFF) as u32;
        assert(hi == hi_word(v) && lo == lo_word(v)) by (bit_vector)
            requires
                hi == (v >> 32) as u32,
                lo == (v & 0xFFFF_FFFF) as u32,
        ;
        self.stackframe.operand_stack.push(hi);
        self.stackframe.operand_stack.push(lo);
        match self.return_two() {
            Ok(()) => {
                proof {
                    let caller = old(self).stack@.last()@;
                    assert(caller.stack.drop_last().push(hi).push(lo) =~= caller.stack.drop_last() + seq![hi, lo]);
                }
                Ok(())
            },
            Err(f) => Err(Error::Misc(f)),
        }
    }
}

} // verus!
