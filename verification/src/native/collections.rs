//! The native collections: `HashMap` and `HashSet`, filed by the hash codes
//! of their keys, and `ArrayList`.
use vstd::prelude::*;

use crate::class::{FieldType, FieldTypeView, MethodDescriptor, MethodDescriptorView};
use crate::data::{find_key, insert_entry, lemma_find_key, lookup_entry, NULL};
use crate::dynamic::string_at;
use crate::error::{Error, Fault};
use crate::heap::{object_at, slot_of, with_object, Heap, HeapView};
use crate::native::{arg, call_on, called_on, descriptor, object_type, void_returned, word_returned};
use crate::native::string::{text_of, to_string_descriptor, to_string_view};
use crate::native::string_builder::with_native_pushed;
use crate::native::function::popped_one;
use crate::object::{native_fields_view, NativeField, NativeFieldView, Object, ObjectView};
use crate::text::chars;
use crate::thread::{frames_view, spec_resolve, Thread};
use crate::native::{
    add_method, any_type, file_with_methods, library_class, native_method, no_args, string_type, PUBLIC_ABSTRACT_NATIVE,
    PUBLIC_NATIVE,
};
use crate::raw_class::RawMethod;

verus! {

/// `HashMap.<init>`.
pub const HASH_MAP_INIT: u32 = 40;
/// `HashMap.put`.
pub const HASH_MAP_PUT: u32 = 41;
/// `HashMap.get`.
pub const HASH_MAP_GET: u32 = 42;
/// `size` of the three collections.
pub const COLLECTION_SIZE: u32 = 43;
/// `HashSet.<init>`.
pub const HASH_SET_INIT: u32 = 44;
/// `HashSet.insert`.
pub const HASH_SET_INSERT: u32 = 45;
/// `HashSet.contains`.
pub const HASH_SET_CONTAINS: u32 = 46;
/// `ArrayList.<init>`.
pub const ARRAY_LIST_INIT: u32 = 47;
/// `ArrayList.append`.
pub const ARRAY_LIST_APPEND: u32 = 48;
/// `ArrayList.add`.
pub const ARRAY_LIST_ADD: u32 = 49;
/// `ArrayList.sort`.
pub const ARRAY_LIST_SORT: u32 = 50;
/// `ArrayList.toString`.
pub const ARRAY_LIST_TO_STRING: u32 = 51;

/// The methods of `java/util/HashMap`, in the order they are filed.
pub open spec fn lib_hash_map_methods() -> Seq<crate::raw_class::RawMethodView> {
    seq![
        crate::native::native_view(PUBLIC_NATIVE, "<init>"@, crate::native::mdesc(seq![], None), HASH_MAP_INIT),
        crate::native::native_view(PUBLIC_NATIVE, "put"@, crate::native::mdesc(seq![crate::class::FieldTypeView::Object("java/lang/Object"@), crate::class::FieldTypeView::Object("java/lang/Object"@)], None), HASH_MAP_PUT),
        crate::native::native_view(PUBLIC_NATIVE, "get"@, crate::native::mdesc(seq![crate::class::FieldTypeView::Object("java/lang/Object"@)], Some(crate::class::FieldTypeView::Object("java/lang/Object"@))), HASH_MAP_GET),
        crate::native::native_view(PUBLIC_NATIVE, "size"@, crate::native::mdesc(seq![], Some(crate::class::FieldTypeView::Int)), COLLECTION_SIZE),
    ]
}

/// `java/util/HashMap` before its methods are listed.
pub open spec fn lib_hash_map_base() -> crate::raw_class::RawClassView {
    crate::raw_class::new_class_view(PUBLIC_NATIVE, "java/util/HashMap"@, "java/lang/Object"@)
}

/// The methods of `java/util/HashSet`, in the order they are filed.
pub open spec fn lib_hash_set_methods() -> Seq<crate::raw_class::RawMethodView> {
    seq![
        crate::native::native_view(PUBLIC_NATIVE, "<init>"@, crate::native::mdesc(seq![], None), HASH_SET_INIT),
        crate::native::native_view(PUBLIC_NATIVE, "contains"@, crate::native::mdesc(seq![crate::class::FieldTypeView::Object("java/lang/Object"@)], Some(crate::class::FieldTypeView::Boolean)), HASH_SET_CONTAINS),
        crate::native::native_view(PUBLIC_NATIVE, "insert"@, crate::native::mdesc(seq![crate::class::FieldTypeView::Object("java/lang/Object"@)], None), HASH_SET_INSERT),
        crate::native::native_view(PUBLIC_NATIVE, "size"@, crate::native::mdesc(seq![], Some(crate::class::FieldTypeView::Int)), COLLECTION_SIZE),
    ]
}

/// `java/util/HashSet` before its methods are listed.
pub open spec fn lib_hash_set_base() -> crate::raw_class::RawClassView {
    crate::raw_class::new_class_view(PUBLIC_NATIVE, "java/util/HashSet"@, "java/lang/Object"@)
}

/// The methods of `java/util/ArrayList`, in the order they are filed.
pub open spec fn lib_array_list_methods() -> Seq<crate::raw_class::RawMethodView> {
    seq![
        crate::native::native_view(PUBLIC_NATIVE, "<init>"@, crate::native::mdesc(seq![], None), ARRAY_LIST_INIT),
        crate::native::native_view(PUBLIC_NATIVE, "append"@, crate::native::mdesc(seq![crate::class::FieldTypeView::Object("java/lang/Object"@)], None), ARRAY_LIST_APPEND),
        crate::native::native_view(PUBLIC_NATIVE, "size"@, crate::native::mdesc(seq![], Some(crate::class::FieldTypeView::Int)), COLLECTION_SIZE),
        crate::native::native_view(PUBLIC_NATIVE, "add"@, crate::native::mdesc(seq![crate::class::FieldTypeView::Object("java/lang/Object"@)], Some(crate::class::FieldTypeView::Boolean)), ARRAY_LIST_ADD),
        crate::native::native_view(PUBLIC_NATIVE, "sort"@, crate::native::mdesc(seq![crate::class::FieldTypeView::Object("java/util/Comparator"@)], None), ARRAY_LIST_SORT),
        crate::native::native_view(PUBLIC_NATIVE, "toString"@, crate::native::mdesc(seq![], Some(crate::class::FieldTypeView::Object("java/lang/String"@))), ARRAY_LIST_TO_STRING),
    ]
}

/// `java/util/ArrayList` before its methods are listed.
pub open spec fn lib_array_list_base() -> crate::raw_class::RawClassView {
    crate::raw_class::new_class_view(PUBLIC_NATIVE, "java/util/ArrayList"@, "java/lang/Object"@)
}

/// The methods of `java/util/Comparator`, in the order they are filed.
pub open spec fn lib_comparator_methods() -> Seq<crate::raw_class::RawMethodView> {
    seq![
        crate::native::abstract_view("compare"@, crate::native::mdesc(seq![crate::class::FieldTypeView::Object("java/lang/Object"@), crate::class::FieldTypeView::Object("java/lang/Object"@)], Some(crate::class::FieldTypeView::Int))),
    ]
}

/// `java/util/Comparator` before its methods are listed.
pub open spec fn lib_comparator_base() -> crate::raw_class::RawClassView {
    crate::raw_class::new_class_view(PUBLIC_ABSTRACT_NATIVE, "java/util/Comparator"@, "java/lang/Object"@)
}

/// The method area after filing the methods of `HashMap`, `HashSet`, `ArrayList` and `Comparator`, in order.
pub open spec fn lib_collections_methods_filed(ma: Seq<(crate::data::MethodKey, (Seq<char>, crate::raw_class::RawMethodView))>) -> Seq<(crate::data::MethodKey, (Seq<char>, crate::raw_class::RawMethodView))> {
    let a = ma;
    let a = crate::native::file_methods(a, "java/util/HashMap"@, lib_hash_map_methods());
    let a = crate::native::file_methods(a, "java/util/HashSet"@, lib_hash_set_methods());
    let a = crate::native::file_methods(a, "java/util/ArrayList"@, lib_array_list_methods());
    let a = crate::native::file_methods(a, "java/util/Comparator"@, lib_comparator_methods());
    a
}

/// The class area after filing `HashMap`, `HashSet`, `ArrayList` and `Comparator`, in order.
pub open spec fn lib_collections_classes_filed(ca: Seq<(Seq<char>, crate::raw_class::RawClassView)>) -> Seq<(Seq<char>, crate::raw_class::RawClassView)> {
    let a = ca;
    let a = crate::data::insert_entry(a, "java/util/HashMap"@, crate::native::with_method_names(lib_hash_map_base(), lib_hash_map_methods()));
    let a = crate::data::insert_entry(a, "java/util/HashSet"@, crate::native::with_method_names(lib_hash_set_base(), lib_hash_set_methods()));
    let a = crate::data::insert_entry(a, "java/util/ArrayList"@, crate::native::with_method_names(lib_array_list_base(), lib_array_list_methods()));
    let a = crate::data::insert_entry(a, "java/util/Comparator"@, crate::native::with_method_names(lib_comparator_base(), lib_comparator_methods()));
    a
}

/// Files `HashMap`, `HashSet`, `ArrayList` and the interface `Comparator`
/// (its `compare` abstract), with their native methods.
pub fn add_native_collections(
    method_area: &mut crate::data::WorkingMethodArea,
    class_area: &mut crate::data::WorkingClassArea,
    Ghost(start): Ghost<Seq<(Seq<char>, crate::raw_class::RawClassView)>>,
)
    requires
        crate::native::natives_filed(old(method_area)@, old(class_area)@, start),
    ensures
        final(method_area)@ == lib_collections_methods_filed(old(method_area)@),
        final(class_area)@ == lib_collections_classes_filed(old(class_area)@),
        crate::native::natives_filed(final(method_area)@, final(class_area)@, start),
        crate::native::keys_kept(old(class_area)@, final(class_area)@),
        lookup_entry(final(class_area)@, "java/util/HashMap"@) is Some,
        lookup_entry(final(class_area)@, "java/util/HashSet"@) is Some,
        lookup_entry(final(class_area)@, "java/util/ArrayList"@) is Some,
        lookup_entry(final(class_area)@, "java/util/Comparator"@) is Some,
{
    use_natives(method_area, class_area, Ghost(start))
}

/// Files the collection classes (see `add_native_collections`).
fn use_natives(
    method_area: &mut crate::data::WorkingMethodArea,
    class_area: &mut crate::data::WorkingClassArea,
    Ghost(start): Ghost<Seq<(Seq<char>, crate::raw_class::RawClassView)>>,
)
    requires
        crate::native::natives_filed(old(method_area)@, old(class_area)@, start),
    ensures
        final(method_area)@ == lib_collections_methods_filed(old(method_area)@),
        final(class_area)@ == lib_collections_classes_filed(old(class_area)@),
        crate::native::natives_filed(final(method_area)@, final(class_area)@, start),
        crate::native::keys_kept(old(class_area)@, final(class_area)@),
        lookup_entry(final(class_area)@, "java/util/HashMap"@) is Some,
        lookup_entry(final(class_area)@, "java/util/HashSet"@) is Some,
        lookup_entry(final(class_area)@, "java/util/ArrayList"@) is Some,
        lookup_entry(final(class_area)@, "java/util/Comparator"@) is Some,
{
    let hash_map = library_class(PUBLIC_NATIVE, "java/util/HashMap", "java/lang/Object");
    let mut ms: Vec<RawMethod> = Vec::new();
    add_method(&mut ms, native_method(PUBLIC_NATIVE, "<init>", no_args(None), HASH_MAP_INIT));
    add_method(&mut ms, native_method(PUBLIC_NATIVE, "put", descriptor(vec![any_type(), any_type()], None), HASH_MAP_PUT));
    add_method(
        &mut ms,
        native_method(PUBLIC_NATIVE, "get", descriptor(vec![any_type()], Some(any_type())), HASH_MAP_GET),
    );
    add_method(&mut ms, native_method(PUBLIC_NATIVE, "size", no_args(Some(FieldType::Int)), COLLECTION_SIZE));
    proof {
        assert(crate::raw_class::raw_methods_view(ms@) =~~= lib_hash_map_methods());
        assert(hash_map@ =~~= lib_hash_map_base());
    }
    file_with_methods(hash_map, ms, method_area, class_area, Ghost(start));

    let hash_set = library_class(PUBLIC_NATIVE, "java/util/HashSet", "java/lang/Object");
    let mut ms: Vec<RawMethod> = Vec::new();
    add_method(&mut ms, native_method(PUBLIC_NATIVE, "<init>", no_args(None), HASH_SET_INIT));
    add_method(
        &mut ms,
        native_method(
            PUBLIC_NATIVE,
            "contains",
            descriptor(vec![any_type()], Some(FieldType::Boolean)),
            HASH_SET_CONTAINS,
        ),
    );
    add_method(&mut ms, native_method(PUBLIC_NATIVE, "insert", descriptor(vec![any_type()], None), HASH_SET_INSERT));
    add_method(&mut ms, native_method(PUBLIC_NATIVE, "size", no_args(Some(FieldType::Int)), COLLECTION_SIZE));
    proof {
        assert(crate::raw_class::raw_methods_view(ms@) =~~= lib_hash_set_methods());
        assert(hash_set@ =~~= lib_hash_set_base());
    }
    file_with_methods(hash_set, ms, method_area, class_area, Ghost(start));

    let array_list = library_class(PUBLIC_NATIVE, "java/util/ArrayList", "java/lang/Object");
    let mut ms: Vec<RawMethod> = Vec::new();
    add_method(&mut ms, native_method(PUBLIC_NATIVE, "<init>", no_args(None), ARRAY_LIST_INIT));
    add_method(&mut ms, native_method(PUBLIC_NATIVE, "append", descriptor(vec![any_type()], None), ARRAY_LIST_APPEND));
    add_method(&mut ms, native_method(PUBLIC_NATIVE, "size", no_args(Some(FieldType::Int)), COLLECTION_SIZE));
    add_method(
        &mut ms,
        native_method(PUBLIC_NATIVE, "add", descriptor(vec![any_type()], Some(FieldType::Boolean)), ARRAY_LIST_ADD),
    );
    add_method(
        &mut ms,
        native_method(
            PUBLIC_NATIVE,
            "sort",
            descriptor(vec![object_type("java/util/Comparator")], None),
            ARRAY_LIST_SORT,
        ),
    );
    add_method(&mut ms, native_method(PUBLIC_NATIVE, "toString", no_args(Some(string_type())), ARRAY_LIST_TO_STRING));
    proof {
        assert(crate::raw_class::raw_methods_view(ms@) =~~= lib_array_list_methods());
        assert(array_list@ =~~= lib_array_list_base());
    }
    file_with_methods(array_list, ms, method_area, class_area, Ghost(start));

    let comparator = library_class(PUBLIC_ABSTRACT_NATIVE, "java/util/Comparator", "java/lang/Object");
    let mut ms: Vec<RawMethod> = Vec::new();
    add_method(
        &mut ms,
        crate::native::abstract_method(
            "compare",
            descriptor(vec![any_type(), any_type()], Some(FieldType::Int)),
        ),
    );
    proof {
        assert(crate::raw_class::raw_methods_view(ms@) =~~= lib_comparator_methods());
        assert(comparator@ =~~= lib_comparator_base());
    }
    file_with_methods(comparator, ms, method_area, class_area, Ghost(start));
}

/// The keys of map entries.
pub open spec fn keys_of(m: Seq<(u32, u32)>) -> Seq<u32> {
    m.map_values(|e: (u32, u32)| e.0)
}

/// The position of the entry for `k`, or `None`.
fn entry_position(m: &Vec<(u32, u32)>, k: u32) -> (r: Option<usize>)
    ensures
        match r {
            Some(i) => find_key(keys_of(m@), k) == i && i < m@.len(),
            None => find_key(keys_of(m@), k) == -1,
        },
{
    let ghost keys = keys_of(m@);
    proof {
        lemma_find_key(keys, k);
    }
    let mut i: usize = 0;
    while i < m.len()
        invariant
            keys == keys_of(m@),
            keys.len() == m@.len(),
            i <= m@.len(),
            forall|j: int| 0 <= j < i ==> keys[j] != k,
            -1 <= find_key(keys, k) < keys.len(),
            find_key(keys, k) >= 0 ==> keys[find_key(keys, k)] == k && forall|j: int|
                0 <= j < find_key(keys, k) ==> keys[j] != k,
            find_key(keys, k) == -1 ==> forall|j: int| 0 <= j < keys.len() ==> keys[j] != k,
        decreases m@.len() - i,
    {
        assert(keys[i as int] == m@[i as int].0);
        if m[i].0 == k {
            return Some(i);
        }
        i = i + 1;
    }
    None
}

/// Puts `v` under `k` (see `insert_entry`).
pub fn map_insert(m: &mut Vec<(u32, u32)>, k: u32, v: u32)
    ensures
        final(m)@ == insert_entry(old(m)@, k, v),
{
    match entry_position(m, k) {
        Some(i) => {
            m.set(i, (k, v));
        },
        None => {
            m.push((k, v));
        },
    }
}

/// The value under `k` (see `lookup_entry`).
pub fn map_get(m: &Vec<(u32, u32)>, k: u32) -> (r: Option<u32>)
    ensures
        r == lookup_entry(m@, k),
{
    match entry_position(m, k) {
        Some(i) => Some(m[i].1),
        None => None,
    }
}

/// Whether `x` is among `s`.
pub fn set_contains(s: &Vec<u32>, x: u32) -> (r: bool)
    ensures
        r == s@.contains(x),
{
    let mut i: usize = 0;
    while i < s.len()
        invariant
            i <= s@.len(),
            forall|j: int| 0 <= j < i ==> s@[j] != x,
        decreases s@.len() - i,
    {
        if s[i] == x {
            assert(s@.contains(x));
            return true;
        }
        i = i + 1;
    }
    false
}

/// The hash codes after inserting `x`: added at the end unless it is there.
pub open spec fn set_insert(s: Seq<u32>, x: u32) -> Seq<u32> {
    if s.contains(x) {
        s
    } else {
        s.push(x)
    }
}

/// The collection that the object `ptr` holds as its first native value.
pub open spec fn collection_of(h: HeapView, ptr: u32) -> Result<NativeFieldView, Fault> {
    match object_at(h, ptr as int) {
        None => Err(Fault::NullPointer),
        Some(o) => if o.native_fields.len() > 0 {
            Ok(o.native_fields[0])
        } else {
            Err(Fault::WrongObjectKind)
        },
    }
}

/// The heap with the first native value of the object `ptr` replaced by `f`.
pub open spec fn with_collection(h: HeapView, ptr: u32, f: NativeFieldView) -> HeapView {
    let o = object_at(h, ptr as int)->Some_0;
    with_object(h, slot_of(h, ptr as int), ObjectView { native_fields: o.native_fields.update(0, f), ..o })
}

/// Takes the first native value out of the object `ptr` to change it; puts
/// it back with `restore_collection`.
fn take_collection(heap: &mut Heap, ptr: u32) -> (r: Result<(usize, Object, NativeField), Fault>)
    requires
        old(heap).wf(),
    ensures
        final(heap).wf(),
        match collection_of(old(heap)@, ptr) {
            Err(f) => r == Err::<(usize, Object, NativeField), Fault>(f) && final(heap)@ == old(heap)@,
            Ok(c) => r matches Ok((i, o, x)) && x@ == c && i == slot_of(old(heap)@, ptr as int) && i
                < final(heap)@.contents.len() && final(heap)@.contents.len() == old(heap)@.contents.len()
                && o@ == (ObjectView {
                native_fields: object_at(old(heap)@, ptr as int)->Some_0.native_fields.subrange(
                    1,
                    object_at(old(heap)@, ptr as int)->Some_0.native_fields.len() as int,
                ),
                ..object_at(old(heap)@, ptr as int)->Some_0
            }) && final(heap)@ == (HeapView {
                contents: old(heap)@.contents.update(i as int, None),
                ..old(heap)@
            }),
        },
{
    let (i, mut o) = heap.take(ptr)?;
    if o.native_fields.len() == 0 {
        let ghost ov = o@;
        heap.restore(i, o);
        assert(heap@.contents =~= old(heap)@.contents);
        return Err(Fault::WrongObjectKind);
    }
    let ghost before = o.native_fields@;
    let x = o.native_fields.remove(0);
    proof {
        assert(native_fields_view(o.native_fields@) =~= native_fields_view(before).subrange(
            1,
            before.len() as int,
        ));
        assert(x@ == native_fields_view(before)[0]);
    }
    Ok((i, o, x))
}

/// Puts the first native value back (after `take_collection`).
fn restore_collection(heap: &mut Heap, i: usize, o: Object, x: NativeField)
    requires
        old(heap).wf(),
        i < old(heap)@.contents.len(),
    ensures
        final(heap).wf(),
        final(heap)@ == with_object(old(heap)@, i as int, ObjectView {
            native_fields: seq![x@] + o@.native_fields,
            ..o@
        }),
{
    let mut o = o;
    let ghost before = o.native_fields@;
    let ghost xv = x@;
    o.native_fields.insert(0, x);
    assert(native_fields_view(o.native_fields@) =~= seq![xv] + native_fields_view(before));
    heap.restore(i, o);
}

/// A native `<init>` that gives the object its first native value, `f`.
fn init_with(thread: &mut Thread, f: NativeField) -> (r: Result<(), Error>)
    requires
        old(thread).wf(),
    ensures
        final(thread).wf(),
        old(thread).stackframe@.locals.len() == 0 ==> r == Err::<(), Error>(Error::Misc(Fault::LocalOutOfRange)),
        old(thread).stackframe@.locals.len() > 0 ==> match with_native_pushed(
            old(thread).heap@,
            old(thread).stackframe@.locals[0],
            f@,
        ) {
            Err(e) => r == Err::<(), Error>(Error::Misc(e)),
            Ok(h) => void_returned(old(thread), h, final(thread), r),
        },
{
    let this = arg(thread, 0)?;
    let (i, mut o) = match thread.heap.take(this) {
        Ok(v) => v,
        Err(e) => {
            return Err(Error::Misc(e));
        },
    };
    let ghost before = o.native_fields@;
    let ghost fv = f@;
    o.native_fields.push(f);
    proof {
        assert(native_fields_view(o.native_fields@) =~= native_fields_view(before).push(fv));
    }
    thread.heap.restore(i, o);
    proof {
        let h = with_native_pushed(old(thread).heap@, this, fv)->Ok_0;
        assert(thread.heap@.contents =~= h.contents);
    }
    thread.return_nothing()
}

/// `HashMap.<init>`: an empty map.
pub fn hash_map_init(thread: &mut Thread) -> (r: Result<(), Error>)
    requires
        old(thread).wf(),
    ensures
        final(thread).wf(),
        old(thread).stackframe@.locals.len() == 0 ==> r == Err::<(), Error>(Error::Misc(Fault::LocalOutOfRange)),
        old(thread).stackframe@.locals.len() > 0 ==> match with_native_pushed(
            old(thread).heap@,
            old(thread).stackframe@.locals[0],
            NativeFieldView::HashMap(seq![]),
        ) {
            Err(e) => r == Err::<(), Error>(Error::Misc(e)),
            Ok(h) => void_returned(old(thread), h, final(thread), r),
        },
{
    let empty: Vec<(u32, u32)> = Vec::new();
    assert(empty@ =~= Seq::<(u32, u32)>::empty());
    init_with(thread, NativeField::HashMap(empty))
}

/// `HashSet.<init>`: an empty set.
pub fn hash_set_init(thread: &mut Thread) -> (r: Result<(), Error>)
    requires
        old(thread).wf(),
    ensures
        final(thread).wf(),
        old(thread).stackframe@.locals.len() == 0 ==> r == Err::<(), Error>(Error::Misc(Fault::LocalOutOfRange)),
        old(thread).stackframe@.locals.len() > 0 ==> match with_native_pushed(
            old(thread).heap@,
            old(thread).stackframe@.locals[0],
            NativeFieldView::HashSet(seq![]),
        ) {
            Err(e) => r == Err::<(), Error>(Error::Misc(e)),
            Ok(h) => void_returned(old(thread), h, final(thread), r),
        },
{
    let empty: Vec<u32> = Vec::new();
    assert(empty@ =~= Seq::<u32>::empty());
    init_with(thread, NativeField::HashSet(empty))
}

/// `ArrayList.<init>`: an empty list.
pub fn array_list_init(thread: &mut Thread) -> (r: Result<(), Error>)
    requires
        old(thread).wf(),
    ensures
        final(thread).wf(),
        old(thread).stackframe@.locals.len() == 0 ==> r == Err::<(), Error>(Error::Misc(Fault::LocalOutOfRange)),
        old(thread).stackframe@.locals.len() > 0 ==> match with_native_pushed(
            old(thread).heap@,
            old(thread).stackframe@.locals[0],
            NativeFieldView::Words(seq![]),
        ) {
            Err(e) => r == Err::<(), Error>(Error::Misc(e)),
            Ok(h) => void_returned(old(thread), h, final(thread), r),
        },
{
    let empty: Vec<u32> = Vec::new();
    assert(empty@ =~= Seq::<u32>::empty());
    init_with(thread, NativeField::Words(empty))
}

/// The number of entries of a collection: the entries of a map, the hash
/// codes of a set, the elements of a list; `None` for anything else.
pub open spec fn collection_len(c: NativeFieldView) -> Option<nat> {
    match c {
        NativeFieldView::HashMap(m) => Some(m.len()),
        NativeFieldView::HashSet(s) => Some(s.len()),
        NativeFieldView::Words(w) => Some(w.len()),
        _ => None,
    }
}

/// `HashMap.size`, `HashSet.size` and `ArrayList.size`: the number of
/// entries, cut to 32 bits.
pub fn collection_size(thread: &mut Thread) -> (r: Result<(), Error>)
    requires
        old(thread).wf(),
    ensures
        final(thread).wf(),
        old(thread).stackframe@.locals.len() == 0 ==> r == Err::<(), Error>(Error::Misc(Fault::LocalOutOfRange)),
        old(thread).stackframe@.locals.len() > 0 ==> match collection_of(
            old(thread).heap@,
            old(thread).stackframe@.locals[0],
        ) {
            Err(e) => r == Err::<(), Error>(Error::Misc(e)),
            Ok(c) => match collection_len(c) {
                None => r == Err::<(), Error>(Error::Misc(Fault::WrongObjectKind)),
                Some(n) => word_returned(
                    old(thread),
                    old(thread).heap@,
                    final(thread),
                    (n % 0x1_0000_0000) as u32,
                    r,
                ),
            },
        },
{
    let this = arg(thread, 0)?;
    let n: usize = match thread.heap.get(this as usize) {
        None => {
            return Err(Error::Misc(Fault::NullPointer));
        },
        Some(o) => {
            if o.native_fields.len() == 0 {
                return Err(Error::Misc(Fault::WrongObjectKind));
            }
            assert(o@.native_fields[0] == o.native_fields@[0]@);
            match &o.native_fields[0] {
                NativeField::HashMap(m) => m.len(),
                NativeField::HashSet(s) => s.len(),
                NativeField::Words(w) => w.len(),
                _ => {
                    return Err(Error::Misc(Fault::WrongObjectKind));
                },
            }
        },
    };
    let n64 = n as u64;
    #[verifier::truncate]
    let w = n64 as u32;
    assert(w == n64 % 0x1_0000_0000) by (bit_vector)
        requires
            w == n64 as u32,
    ;
    thread.return_word(w)
}

/// The descriptor `()I` of `hashCode`.
pub open spec fn hash_code_view() -> MethodDescriptorView {
    MethodDescriptorView { parameter_size: 0, parameters: seq![], return_type: Some(FieldTypeView::Int) }
}

/// Calls `hashCode` on the key (local 1), coming back at 1.
fn call_hash_code(thread: &mut Thread) -> (r: Result<(), Error>)
    requires
        old(thread).wf(),
    ensures
        final(thread).wf(),
        old(thread).stackframe@.locals.len() < 2 ==> r == Err::<(), Error>(Error::Misc(Fault::LocalOutOfRange)),
        old(thread).stackframe@.locals.len() >= 2 ==> match spec_resolve(
            old(thread).heap@,
            old(thread).class_area@.classes,
            old(thread).method_area@,
            old(thread).stackframe@.locals[1],
            "hashCode"@,
            hash_code_view(),
        ) {
            Err(e) => r matches Err(er) && er@ == e,
            Ok((c, m)) => r is Ok && called_on(old(thread), final(thread), c, m, old(thread).stackframe@.locals[1], 1),
        },
{
    let key = arg(thread, 1)?;
    let name = chars("hashCode");
    let none: Vec<FieldType> = Vec::new();
    assert(crate::class::field_types_view(none@) =~= Seq::<FieldTypeView>::empty());
    let desc = descriptor(none, Some(FieldType::Int));
    call_on(thread, key, name.as_slice(), &desc, 1)
}

/// The hash code that came back: popped off the running frame.
fn pop_hash(thread: &mut Thread) -> (r: Result<u32, Error>)
    ensures
        old(thread).stackframe@.stack.len() == 0 ==> r == Err::<u32, Error>(Error::Misc(Fault::StackUnderflow))
            && *final(thread) == *old(thread),
        old(thread).stackframe@.stack.len() > 0 ==> r == Ok::<u32, Error>(old(thread).stackframe@.stack.last())
            && final(thread).stackframe@ == (crate::frame::StackFrameView {
            stack: old(thread).stackframe@.stack.drop_last(),
            ..old(thread).stackframe@
        }) && final(thread).pc_register == old(thread).pc_register && final(thread).stack == old(thread).stack
            && final(thread).heap == old(thread).heap && final(thread).class_area == old(thread).class_area
            && final(thread).method_area == old(thread).method_area,
{
    if thread.stackframe.operand_stack.len() == 0 {
        return Err(Error::Misc(Fault::StackUnderflow));
    }
    match thread.stackframe.operand_stack.pop() {
        Some(v) => Ok(v),
        None => Err(Error::Misc(Fault::StackUnderflow)),
    }
}

/// The heap after the map `ptr` puts `v` under `k`, or the fault.
pub open spec fn map_put(h: HeapView, ptr: u32, k: u32, v: u32) -> Result<HeapView, Fault> {
    match collection_of(h, ptr) {
        Err(f) => Err(f),
        Ok(NativeFieldView::HashMap(m)) => Ok(with_collection(h, ptr, NativeFieldView::HashMap(insert_entry(m, k, v)))),
        Ok(_) => Err(Fault::WrongObjectKind),
    }
}

/// `HashMap.put(key, value)`: at its first step it calls the key's
/// `hashCode` (coming back at 1); then it files the value under the hash
/// code that came back, and returns.
pub fn hash_map_put(thread: &mut Thread) -> (r: Result<(), Error>)
    requires
        old(thread).wf(),
    ensures
        final(thread).wf(),
        old(thread).stackframe@.locals.len() < 3 ==> r == Err::<(), Error>(Error::Misc(Fault::LocalOutOfRange)),
        old(thread).stackframe@.locals.len() >= 3 && old(thread).pc_register == 0 ==> match spec_resolve(
            old(thread).heap@,
            old(thread).class_area@.classes,
            old(thread).method_area@,
            old(thread).stackframe@.locals[1],
            "hashCode"@,
            hash_code_view(),
        ) {
            Err(e) => r matches Err(er) && er@ == e,
            Ok((c, m)) => r is Ok && called_on(old(thread), final(thread), c, m, old(thread).stackframe@.locals[1], 1),
        },
        old(thread).stackframe@.locals.len() >= 3 && old(thread).pc_register != 0 ==> {
            let l = old(thread).stackframe@.locals;
            let st = old(thread).stackframe@.stack;
            if st.len() == 0 {
                r == Err::<(), Error>(Error::Misc(Fault::StackUnderflow)) && *final(thread) == *old(thread)
            } else {
                exists|tp: Thread|
                    #[trigger] popped_one(old(thread), &tp) && match map_put(old(thread).heap@, l[0], st.last(), l[2]) {
                        Err(f) => r == Err::<(), Error>(Error::Misc(f)),
                        Ok(h) => void_returned(&tp, h, final(thread), r),
                    }
            }
        },
{
    let this = arg(thread, 0)?;
    let _key = arg(thread, 1)?;
    let value = arg(thread, 2)?;
    if thread.pc_register == 0 {
        return call_hash_code(thread);
    }
    let hash = match pop_hash(thread) {
        Ok(h) => h,
        Err(e) => {
            return Err(e);
        },
    };
    let ghost tp = *thread;
    assert(popped_one(old(thread), &tp));
    let (i, o, x) = match take_collection(&mut thread.heap, this) {
        Ok(v) => v,
        Err(f) => {
            return Err(Error::Misc(f));
        },
    };
    let x = match x {
        NativeField::HashMap(mut m) => {
            map_insert(&mut m, hash, value);
            NativeField::HashMap(m)
        },
        other => {
            restore_collection(&mut thread.heap, i, o, other);
            return Err(Error::Misc(Fault::WrongObjectKind));
        },
    };
    let ghost xv = x@;
    let ghost ov = o@;
    restore_collection(&mut thread.heap, i, o, x);
    proof {
        let h0 = old(thread).heap@;
        let ob = object_at(h0, this as int)->Some_0;
        assert(seq![xv] + ov.native_fields =~= ob.native_fields.update(0, xv));
        assert(thread.heap@.contents =~= map_put(h0, this, hash, value)->Ok_0.contents);
    }
    thread.return_nothing()
}

/// The value that the map `ptr` has under `k`, null when none, or the fault.
pub open spec fn map_value(h: HeapView, ptr: u32, k: u32) -> Result<u32, Fault> {
    match collection_of(h, ptr) {
        Err(f) => Err(f),
        Ok(NativeFieldView::HashMap(m)) => Ok(
            match lookup_entry(m, k) {
                Some(v) => v,
                None => NULL,
            },
        ),
        Ok(_) => Err(Fault::WrongObjectKind),
    }
}

/// `HashMap.get(key)`: at its first step it calls the key's `hashCode`
/// (coming back at 1); then it returns the value filed under the hash code
/// that came back, or null.
pub fn hash_map_get(thread: &mut Thread) -> (r: Result<(), Error>)
    requires
        old(thread).wf(),
    ensures
        final(thread).wf(),
        old(thread).stackframe@.locals.len() < 2 ==> r == Err::<(), Error>(Error::Misc(Fault::LocalOutOfRange)),
        old(thread).stackframe@.locals.len() >= 2 && old(thread).pc_register == 0 ==> match spec_resolve(
            old(thread).heap@,
            old(thread).class_area@.classes,
            old(thread).method_area@,
            old(thread).stackframe@.locals[1],
            "hashCode"@,
            hash_code_view(),
        ) {
            Err(e) => r matches Err(er) && er@ == e,
            Ok((c, m)) => r is Ok && called_on(old(thread), final(thread), c, m, old(thread).stackframe@.locals[1], 1),
        },
        old(thread).stackframe@.locals.len() >= 2 && old(thread).pc_register != 0 ==> {
            let l = old(thread).stackframe@.locals;
            let st = old(thread).stackframe@.stack;
            if st.len() == 0 {
                r == Err::<(), Error>(Error::Misc(Fault::StackUnderflow)) && *final(thread) == *old(thread)
            } else {
                exists|tp: Thread|
                    #[trigger] popped_one(old(thread), &tp) && match map_value(old(thread).heap@, l[0], st.last()) {
                        Err(f) => r == Err::<(), Error>(Error::Misc(f)) && *final(thread) == tp,
                        Ok(v) => word_returned(&tp, old(thread).heap@, final(thread), v, r),
                    }
            }
        },
{
    let this = arg(thread, 0)?;
    let _key = arg(thread, 1)?;
    if thread.pc_register == 0 {
        return call_hash_code(thread);
    }
    let hash = match pop_hash(thread) {
        Ok(h) => h,
        Err(e) => {
            return Err(e);
        },
    };
    let ghost tp = *thread;
    assert(popped_one(old(thread), &tp));
    let v = match thread.heap.get(this as usize) {
        None => {
            return Err(Error::Misc(Fault::NullPointer));
        },
        Some(o) => {
            if o.native_fields.len() == 0 {
                return Err(Error::Misc(Fault::WrongObjectKind));
            }
            assert(o@.native_fields[0] == o.native_fields@[0]@);
            match &o.native_fields[0] {
                NativeField::HashMap(m) => match map_get(m, hash) {
                    Some(v) => v,
                    None => NULL,
                },
                _ => {
                    return Err(Error::Misc(Fault::WrongObjectKind));
                },
            }
        },
    };
    let r = thread.return_word(v);
    proof {
        if r is Ok {
            assert((seq![v]).last() == v);
        }
    }
    r
}

/// The heap after the set `ptr` takes the hash code `k`, or the fault.
pub open spec fn set_put(h: HeapView, ptr: u32, k: u32) -> Result<HeapView, Fault> {
    match collection_of(h, ptr) {
        Err(f) => Err(f),
        Ok(NativeFieldView::HashSet(s)) => Ok(with_collection(h, ptr, NativeFieldView::HashSet(set_insert(s, k)))),
        Ok(_) => Err(Fault::WrongObjectKind),
    }
}

/// `HashSet.insert(key)`: at its first step it calls the key's
/// `hashCode` (coming back at 1); then it adds the hash code that came
/// back, and returns.
pub fn hash_set_insert(thread: &mut Thread) -> (r: Result<(), Error>)
    requires
        old(thread).wf(),
    ensures
        final(thread).wf(),
        old(thread).stackframe@.locals.len() < 2 ==> r == Err::<(), Error>(Error::Misc(Fault::LocalOutOfRange)),
        old(thread).stackframe@.locals.len() >= 2 && old(thread).pc_register == 0 ==> match spec_resolve(
            old(thread).heap@,
            old(thread).class_area@.classes,
            old(thread).method_area@,
            old(thread).stackframe@.locals[1],
            "hashCode"@,
            hash_code_view(),
        ) {
            Err(e) => r matches Err(er) && er@ == e,
            Ok((c, m)) => r is Ok && called_on(old(thread), final(thread), c, m, old(thread).stackframe@.locals[1], 1),
        },
        old(thread).stackframe@.locals.len() >= 2 && old(thread).pc_register != 0 ==> {
            let l = old(thread).stackframe@.locals;
            let st = old(thread).stackframe@.stack;
            if st.len() == 0 {
                r == Err::<(), Error>(Error::Misc(Fault::StackUnderflow)) && *final(thread) == *old(thread)
            } else {
                exists|tp: Thread|
                    #[trigger] popped_one(old(thread), &tp) && match set_put(old(thread).heap@, l[0], st.last()) {
                        Err(f) => r == Err::<(), Error>(Error::Misc(f)),
                        Ok(h) => void_returned(&tp, h, final(thread), r),
                    }
            }
        },
{
    let this = arg(thread, 0)?;
    let _key = arg(thread, 1)?;
    if thread.pc_register == 0 {
        return call_hash_code(thread);
    }
    let hash = match pop_hash(thread) {
        Ok(h) => h,
        Err(e) => {
            return Err(e);
        },
    };
    let ghost tp = *thread;
    assert(popped_one(old(thread), &tp));
    let (i, o, x) = match take_collection(&mut thread.heap, this) {
        Ok(v) => v,
        Err(f) => {
            return Err(Error::Misc(f));
        },
    };
    let x = match x {
        NativeField::HashSet(mut s) => {
            if !set_contains(&s, hash) {
                s.push(hash);
            }
            NativeField::HashSet(s)
        },
        other => {
            restore_collection(&mut thread.heap, i, o, other);
            return Err(Error::Misc(Fault::WrongObjectKind));
        },
    };
    let ghost xv = x@;
    let ghost ov = o@;
    restore_collection(&mut thread.heap, i, o, x);
    proof {
        let h0 = old(thread).heap@;
        let ob = object_at(h0, this as int)->Some_0;
        assert(seq![xv] + ov.native_fields =~= ob.native_fields.update(0, xv));
        assert(thread.heap@.contents =~= set_put(h0, this, hash)->Ok_0.contents);
    }
    thread.return_nothing()
}

/// Whether the set `ptr` holds the hash code `k`, as a word, or the fault.
pub open spec fn set_has(h: HeapView, ptr: u32, k: u32) -> Result<u32, Fault> {
    match collection_of(h, ptr) {
        Err(f) => Err(f),
        Ok(NativeFieldView::HashSet(s)) => Ok(
            if s.contains(k) {
                1u32
            } else {
                0u32
            },
        ),
        Ok(_) => Err(Fault::WrongObjectKind),
    }
}

/// `HashSet.contains(key)`: at its first step it calls the key's
/// `hashCode` (coming back at 1); then it returns whether the set holds
/// the hash code that came back.
pub fn hash_set_contains(thread: &mut Thread) -> (r: Result<(), Error>)
    requires
        old(thread).wf(),
    ensures
        final(thread).wf(),
        old(thread).stackframe@.locals.len() < 2 ==> r == Err::<(), Error>(Error::Misc(Fault::LocalOutOfRange)),
        old(thread).stackframe@.locals.len() >= 2 && old(thread).pc_register == 0 ==> match spec_resolve(
            old(thread).heap@,
            old(thread).class_area@.classes,
            old(thread).method_area@,
            old(thread).stackframe@.locals[1],
            "hashCode"@,
            hash_code_view(),
        ) {
            Err(e) => r matches Err(er) && er@ == e,
            Ok((c, m)) => r is Ok && called_on(old(thread), final(thread), c, m, old(thread).stackframe@.locals[1], 1),
        },
        old(thread).stackframe@.locals.len() >= 2 && old(thread).pc_register != 0 ==> {
            let l = old(thread).stackframe@.locals;
            let st = old(thread).stackframe@.stack;
            if st.len() == 0 {
                r == Err::<(), Error>(Error::Misc(Fault::StackUnderflow)) && *final(thread) == *old(thread)
            } else {
                exists|tp: Thread|
                    #[trigger] popped_one(old(thread), &tp) && match set_has(old(thread).heap@, l[0], st.last()) {
                        Err(f) => r == Err::<(), Error>(Error::Misc(f)) && *final(thread) == tp,
                        Ok(v) => word_returned(&tp, old(thread).heap@, final(thread), v, r),
                    }
            }
        },
{
    let this = arg(thread, 0)?;
    let _key = arg(thread, 1)?;
    if thread.pc_register == 0 {
        return call_hash_code(thread);
    }
    let hash = match pop_hash(thread) {
        Ok(h) => h,
        Err(e) => {
            return Err(e);
        },
    };
    let ghost tp = *thread;
    assert(popped_one(old(thread), &tp));
    let v: u32 = match thread.heap.get(this as usize) {
        None => {
            return Err(Error::Misc(Fault::NullPointer));
        },
        Some(o) => {
            if o.native_fields.len() == 0 {
                return Err(Error::Misc(Fault::WrongObjectKind));
            }
            assert(o@.native_fields[0] == o.native_fields@[0]@);
            match &o.native_fields[0] {
                NativeField::HashSet(s) => if set_contains(s, hash) {
                    1
                } else {
                    0
                },
                _ => {
                    return Err(Error::Misc(Fault::WrongObjectKind));
                },
            }
        },
    };
    let r = thread.return_word(v);
    proof {
        if r is Ok {
            assert((seq![v]).last() == v);
        }
    }
    r
}

/// The heap after the list `ptr` takes `x` at its end, or the fault.
pub open spec fn list_push(h: HeapView, ptr: u32, x: u32) -> Result<HeapView, Fault> {
    match collection_of(h, ptr) {
        Err(f) => Err(f),
        Ok(NativeFieldView::Words(s)) => Ok(with_collection(h, ptr, NativeFieldView::Words(s.push(x)))),
        Ok(_) => Err(Fault::WrongObjectKind),
    }
}

/// Adds `x` at the end of the list `ptr` (see `list_push`); on a fault the
/// heap is as it was.
fn push_to_list(heap: &mut Heap, ptr: u32, x: u32) -> (r: Result<(), Fault>)
    requires
        old(heap).wf(),
    ensures
        final(heap).wf(),
        match list_push(old(heap)@, ptr, x) {
            Err(f) => r == Err::<(), Fault>(f),
            Ok(h) => r is Ok && final(heap)@ == h,
        },
{
    let (i, o, f) = take_collection(heap, ptr)?;
    let f = match f {
        NativeField::Words(mut s) => {
            s.push(x);
            NativeField::Words(s)
        },
        other => {
            restore_collection(heap, i, o, other);
            return Err(Fault::WrongObjectKind);
        },
    };
    let ghost fv = f@;
    let ghost ov = o@;
    restore_collection(heap, i, o, f);
    proof {
        let h0 = old(heap)@;
        let ob = object_at(h0, ptr as int)->Some_0;
        assert(seq![fv] + ov.native_fields =~= ob.native_fields.update(0, fv));
        assert(heap@.contents =~= list_push(h0, ptr, x)->Ok_0.contents);
    }
    Ok(())
}

/// `ArrayList.append(Object)`: the element goes at the end.
pub fn array_list_append(thread: &mut Thread) -> (r: Result<(), Error>)
    requires
        old(thread).wf(),
    ensures
        final(thread).wf(),
        old(thread).stackframe@.locals.len() < 2 ==> r == Err::<(), Error>(Error::Misc(Fault::LocalOutOfRange)),
        old(thread).stackframe@.locals.len() >= 2 ==> {
            let l = old(thread).stackframe@.locals;
            match list_push(old(thread).heap@, l[0], l[1]) {
                Err(f) => r == Err::<(), Error>(Error::Misc(f)),
                Ok(h) => void_returned(old(thread), h, final(thread), r),
            }
        },
{
    let this = arg(thread, 0)?;
    let x = arg(thread, 1)?;
    match push_to_list(&mut thread.heap, this, x) {
        Ok(()) => {},
        Err(f) => {
            return Err(Error::Misc(f));
        },
    }
    thread.return_nothing()
}

/// `ArrayList.add(Object)`: the element goes at the end, and 1 (true) is
/// returned.
pub fn array_list_add(thread: &mut Thread) -> (r: Result<(), Error>)
    requires
        old(thread).wf(),
    ensures
        final(thread).wf(),
        old(thread).stackframe@.locals.len() < 2 ==> r == Err::<(), Error>(Error::Misc(Fault::LocalOutOfRange)),
        old(thread).stackframe@.locals.len() >= 2 ==> {
            let l = old(thread).stackframe@.locals;
            match list_push(old(thread).heap@, l[0], l[1]) {
                Err(f) => r == Err::<(), Error>(Error::Misc(f)),
                Ok(h) => word_returned(old(thread), h, final(thread), 1, r),
            }
        },
{
    let this = arg(thread, 0)?;
    let x = arg(thread, 1)?;
    match push_to_list(&mut thread.heap, this, x) {
        Ok(()) => {},
        Err(f) => {
            return Err(Error::Misc(f));
        },
    }
    thread.return_word(1)
}

/// The elements of the list `ptr`, or the fault.
pub open spec fn list_of(h: HeapView, ptr: u32) -> Result<Seq<u32>, Fault> {
    match collection_of(h, ptr) {
        Err(f) => Err(f),
        Ok(NativeFieldView::Words(s)) => Ok(s),
        Ok(_) => Err(Fault::WrongObjectKind),
    }
}

/// A copy of the elements of the list `ptr`.
fn list_elements(heap: &Heap, ptr: u32) -> (r: Result<Vec<u32>, Fault>)
    ensures
        match list_of(heap@, ptr) {
            Err(f) => r == Err::<Vec<u32>, Fault>(f),
            Ok(s) => r matches Ok(v) && v@ == s,
        },
{
    match heap.get(ptr as usize) {
        None => Err(Fault::NullPointer),
        Some(o) => {
            if o.native_fields.len() == 0 {
                return Err(Fault::WrongObjectKind);
            }
            assert(o@.native_fields[0] == o.native_fields@[0]@);
            match &o.native_fields[0] {
                NativeField::Words(s) => Ok(crate::data::copy_words(s)),
                _ => Err(Fault::WrongObjectKind),
            }
        },
    }
}

/// The heap after element `i` of the list `ptr` becomes `x`, or the fault.
pub open spec fn list_set(h: HeapView, ptr: u32, i: int, x: u32) -> Result<HeapView, Fault> {
    match list_of(h, ptr) {
        Err(f) => Err(f),
        Ok(s) => if 0 <= i < s.len() {
            Ok(with_collection(h, ptr, NativeFieldView::Words(s.update(i, x))))
        } else {
            Err(Fault::IndexOutOfBounds)
        },
    }
}

/// Sets element `i` of the list `ptr` to `x` (see `list_set`).
fn set_in_list(heap: &mut Heap, ptr: u32, i: usize, x: u32) -> (r: Result<(), Fault>)
    requires
        old(heap).wf(),
    ensures
        final(heap).wf(),
        match list_set(old(heap)@, ptr, i as int, x) {
            Err(f) => r == Err::<(), Fault>(f) && final(heap)@ == old(heap)@,
            Ok(h) => r is Ok && final(heap)@ == h,
        },
{
    let (k, o, f) = match take_collection(heap, ptr) {
        Ok(v) => v,
        Err(e) => {
            return Err(e);
        },
    };
    let ghost h0 = old(heap)@;
    let ghost ob = object_at(h0, ptr as int)->Some_0;
    let ghost ov0 = o@;
    let f = match f {
        NativeField::Words(mut s) => {
            if i >= s.len() {
                let ghost xv = NativeFieldView::Words(s@);
                restore_collection(heap, k, o, NativeField::Words(s));
                proof {
                    assert(seq![xv] + ov0.native_fields =~= ob.native_fields);
                    assert(heap@.contents =~= h0.contents);
                    assert(heap@ == h0);
                }
                return Err(Fault::IndexOutOfBounds);
            }
            s.set(i, x);
            NativeField::Words(s)
        },
        other => {
            let ghost xv = other@;
            restore_collection(heap, k, o, other);
            proof {
                assert(seq![xv] + ov0.native_fields =~= ob.native_fields);
                assert(heap@.contents =~= h0.contents);
                assert(heap@ == h0);
            }
            return Err(Fault::WrongObjectKind);
        },
    };
    let ghost fv = f@;
    let ghost ov = o@;
    restore_collection(heap, k, o, f);
    proof {
        let h0 = old(heap)@;
        let ob = object_at(h0, ptr as int)->Some_0;
        assert(seq![fv] + ov.native_fields =~= ob.native_fields.update(0, fv));
        assert(heap@.contents =~= list_set(h0, ptr, i as int, x)->Ok_0.contents);
    }
    Ok(())
}

/// `(Ljava/lang/Object;Ljava/lang/Object;)I`, the descriptor of `compare`.
pub open spec fn compare_view() -> MethodDescriptorView {
    MethodDescriptorView {
        parameter_size: 2,
        parameters: seq![FieldTypeView::Object("java/lang/Object"@), FieldTypeView::Object("java/lang/Object"@)],
        return_type: Some(FieldTypeView::Int),
    }
}

/// The descriptor `(Ljava/lang/Object;Ljava/lang/Object;)I` of `compare`.
fn compare_descriptor() -> (r: MethodDescriptor)
    ensures
        r@ == compare_view(),
{
    let ps = vec![object_type("java/lang/Object"), object_type("java/lang/Object")];
    let r = descriptor(ps, Some(FieldType::Int));
    assert(crate::class::field_types_view(ps@) =~= seq![
        FieldTypeView::Object("java/lang/Object"@),
        FieldTypeView::Object("java/lang/Object"@),
    ]);
    proof {
        reveal_with_fuel(crate::class_loader::sum_sizes, 3);
    }
    r
}

/// Sets local `i` of the running frame.
fn set_local(thread: &mut Thread, i: usize, v: u32) -> (r: Result<(), Error>)
    requires
        old(thread).wf(),
    ensures
        final(thread).wf(),
        i < old(thread).stackframe@.locals.len() ==> r is Ok && final(thread).stackframe@ == (
        crate::frame::StackFrameView {
            locals: old(thread).stackframe@.locals.update(i as int, v),
            ..old(thread).stackframe@
        }),
        i >= old(thread).stackframe@.locals.len() ==> r == Err::<(), Error>(Error::Misc(Fault::LocalOutOfRange)),
        final(thread).stack == old(thread).stack,
        final(thread).pc_register == old(thread).pc_register,
        final(thread).heap == old(thread).heap,
        final(thread).class_area == old(thread).class_area,
        final(thread).method_area == old(thread).method_area,
{
    if i >= thread.stackframe.locals.len() {
        return Err(Error::Misc(Fault::LocalOutOfRange));
    }
    thread.stackframe.locals.set(i, v);
    Ok(())
}

/// `ArrayList.sort(Comparator)`, one step of an insertion sort kept in the
/// locals (list, comparator, partition, length, target, index), the step
/// being the program counter: 0 sets up, 1 takes the target at the
/// partition, 2 calls the comparator on the target and the element before
/// the index (coming back at 3), 3 reads the comparison and, while the
/// target is the smaller, shifts that element up and goes back to 2 (or on
/// to 4 at the front of the list), 4 puts the target down and returns once
/// the partition reaches the end. A list of fewer than two elements is left
/// as it is.
pub fn array_list_sort(thread: &mut Thread) -> (r: Result<(), Error>)
    requires
        old(thread).wf(),
    ensures
        final(thread).wf(),
        ({
            let l = old(thread).stackframe@.locals;
            let st = old(thread).stackframe@.stack;
            let h = old(thread).heap@;
            let pc = old(thread).pc_register;
            if l.len() < 6 {
                r == Err::<(), Error>(Error::Misc(Fault::LocalOutOfRange)) && *final(thread) == *old(thread)
            } else if pc > 4 {
                r == Err::<(), Error>(Error::Misc(Fault::PcOutOfRange)) && *final(thread) == *old(thread)
            } else if pc == 0 {
                match list_of(h, l[0]) {
                    Err(f) => r == Err::<(), Error>(Error::Misc(f)) && stepped(
                        old(thread),
                        final(thread),
                        1,
                        l.update(2, 1),
                        st,
                        h,
                    ),
                    Ok(items) => if items.len() < 2 {
                        void_returned(old(thread), h, final(thread), r)
                    } else {
                        r is Ok && stepped(
                            old(thread),
                            final(thread),
                            1,
                            l.update(2, 1).update(3, (items.len() % 0x1_0000_0000) as u32),
                            st,
                            h,
                        )
                    },
                }
            } else if pc == 1 {
                match list_of(h, l[0]) {
                    Err(f) => r == Err::<(), Error>(Error::Misc(f)) && stepped(old(thread), final(thread), 2, l, st, h),
                    Ok(items) => if l[2] >= items.len() {
                        r == Err::<(), Error>(Error::Misc(Fault::IndexOutOfBounds)) && stepped(
                            old(thread),
                            final(thread),
                            2,
                            l,
                            st,
                            h,
                        )
                    } else {
                        r is Ok && stepped(
                            old(thread),
                            final(thread),
                            2,
                            l.update(4, items[l[2] as int]).update(5, l[2]),
                            st,
                            h,
                        )
                    },
                }
            } else if pc == 2 {
                match list_of(h, l[0]) {
                    Err(f) => r == Err::<(), Error>(Error::Misc(f)) && stepped(old(thread), final(thread), 3, l, st, h),
                    Ok(items) => if l[5] == 0 || l[5] - 1 >= items.len() {
                        r == Err::<(), Error>(Error::Misc(Fault::IndexOutOfBounds)) && stepped(
                            old(thread),
                            final(thread),
                            3,
                            l,
                            st,
                            h,
                        )
                    } else {
                        match spec_resolve(
                            h,
                            old(thread).class_area@.classes,
                            old(thread).method_area@,
                            l[1],
                            "compare"@,
                            compare_view(),
                        ) {
                            Err(e) => (r matches Err(er) && er@ == e) && stepped(old(thread), final(thread), 3, l, st, h),
                            Ok((c, m)) => {
                                let f = crate::thread::fresh_frame(m, c);
                                &&& frames_view(final(thread).stack@) == frames_view(old(thread).stack@).push(
                                    crate::thread::with_stack(old(thread).stackframe@, st.push(3)),
                                )
                                &&& final(thread).pc_register == 0
                                &&& final(thread).heap@ == h
                                &&& final(thread).class_area@ == old(thread).class_area@
                                &&& final(thread).method_area@ == old(thread).method_area@
                                &&& if m.max_locals as nat + 1 < 3 {
                                    r == Err::<(), Error>(Error::Misc(Fault::LocalOutOfRange))
                                } else {
                                    r is Ok && final(thread).stackframe@ == (crate::frame::StackFrameView {
                                        locals: f.locals.update(0, l[1]).update(1, l[4]).update(
                                            2,
                                            items[l[5] - 1],
                                        ),
                                        ..f
                                    })
                                }
                            },
                        }
                    },
                }
            } else if pc == 3 {
                if st.len() == 0 {
                    r == Err::<(), Error>(Error::Misc(Fault::StackUnderflow)) && stepped(
                        old(thread),
                        final(thread),
                        4,
                        l,
                        st,
                        h,
                    )
                } else if (st.last() as i32) >= 0 {
                    r is Ok && stepped(old(thread), final(thread), 4, l, st.drop_last(), h)
                } else {
                    match list_of(h, l[0]) {
                        Err(f) => r == Err::<(), Error>(Error::Misc(f)) && stepped(
                            old(thread),
                            final(thread),
                            4,
                            l,
                            st.drop_last(),
                            h,
                        ),
                        Ok(items) => if l[5] == 0 || l[5] >= items.len() {
                            r == Err::<(), Error>(Error::Misc(Fault::IndexOutOfBounds)) && stepped(
                                old(thread),
                                final(thread),
                                4,
                                l,
                                st.drop_last(),
                                h,
                            )
                        } else {
                            let h2 = list_set(h, l[0], l[5] as int, items[l[5] - 1])->Ok_0;
                            r is Ok && stepped(
                                old(thread),
                                final(thread),
                                if l[5] > 1 {
                                    2
                                } else {
                                    4
                                },
                                l.update(5, (l[5] - 1) as u32),
                                st.drop_last(),
                                h2,
                            )
                        },
                    }
                }
            } else {
                match list_set(h, l[0], l[5] as int, l[4]) {
                    Err(f) => r == Err::<(), Error>(Error::Misc(f)) && stepped(old(thread), final(thread), 5, l, st, h),
                    Ok(h2) => if l[2] == 0xFFFF_FFFF {
                        r == Err::<(), Error>(Error::Misc(Fault::Overflow)) && stepped(
                            old(thread),
                            final(thread),
                            5,
                            l,
                            st,
                            h2,
                        )
                    } else if l[2] + 1 >= l[3] {
                        void_returned(old(thread), h2, final(thread), r)
                    } else {
                        r is Ok && stepped(old(thread), final(thread), 1, l.update(2, (l[2] + 1) as u32), st, h2)
                    },
                }
            }
        }),
{
    if thread.stackframe.locals.len() < 6 {
        return Err(Error::Misc(Fault::LocalOutOfRange));
    }
    let this = thread.stackframe.locals[0];
    let comparator = thread.stackframe.locals[1];
    let partition = thread.stackframe.locals[2];
    let length = thread.stackframe.locals[3];
    let target = thread.stackframe.locals[4];
    let index = thread.stackframe.locals[5];
    let ghost l0 = thread.stackframe@.locals;
    let pc = thread.pc_register;
    if pc > 4 {
        return Err(Error::Misc(Fault::PcOutOfRange));
    }
    thread.pc_register = pc + 1;
    if pc == 0 {
        thread.stackframe.locals.set(2, 1);
        let elems = match list_elements(&thread.heap, this) {
            Ok(v) => v,
            Err(f) => {
                assert(thread.stackframe@.locals =~= l0.update(2, 1));
                return Err(Error::Misc(f));
            },
        };
        let n64 = elems.len() as u64;
        #[verifier::truncate]
        let n = n64 as u32;
        assert(n == n64 % 0x1_0000_0000) by (bit_vector)
            requires
                n == n64 as u32,
        ;
        if elems.len() < 2 {
            return thread.return_nothing();
        }
        thread.stackframe.locals.set(3, n);
        assert(thread.stackframe@.locals =~= l0.update(2, 1).update(3, n));
        Ok(())
    } else if pc == 1 {
        let elems = match list_elements(&thread.heap, this) {
            Ok(v) => v,
            Err(f) => {
                return Err(Error::Misc(f));
            },
        };
        if partition as usize >= elems.len() {
            return Err(Error::Misc(Fault::IndexOutOfBounds));
        }
        let t = elems[partition as usize];
        thread.stackframe.locals.set(4, t);
        thread.stackframe.locals.set(5, partition);
        assert(thread.stackframe@.locals =~= l0.update(4, t).update(5, partition));
        Ok(())
    } else if pc == 2 {
        let elems = match list_elements(&thread.heap, this) {
            Ok(v) => v,
            Err(f) => {
                return Err(Error::Misc(f));
            },
        };
        if index == 0 || index as usize - 1 >= elems.len() {
            return Err(Error::Misc(Fault::IndexOutOfBounds));
        }
        let next = elems[index as usize - 1];
        let name = chars("compare");
        let desc = compare_descriptor();
        let (class, method) = match thread.resolve_method(comparator, name.as_slice(), &desc) {
            Ok(v) => v,
            Err(e) => {
                return Err(e);
            },
        };
        thread.stackframe.operand_stack.push(3);
        thread.invoke_method(method, class);
        if thread.stackframe.locals.len() < 3 {
            return Err(Error::Misc(Fault::LocalOutOfRange));
        }
        let ghost fl = thread.stackframe@.locals;
        thread.stackframe.locals.set(0, comparator);
        thread.stackframe.locals.set(1, target);
        thread.stackframe.locals.set(2, next);
        assert(thread.stackframe@.locals =~= fl.update(0, comparator).update(1, target).update(2, next));
        Ok(())
    } else if pc == 3 {
        if thread.stackframe.operand_stack.len() == 0 {
            return Err(Error::Misc(Fault::StackUnderflow));
        }
        let w = thread.stackframe.operand_stack.pop().unwrap();
        let c = #[verifier::truncate] (w as i32);
        if c >= 0 {
            thread.pc_register = 4;
        } else {
            let elems = match list_elements(&thread.heap, this) {
                Ok(v) => v,
                Err(f) => {
                    return Err(Error::Misc(f));
                },
            };
            if index == 0 || index as usize >= elems.len() {
                return Err(Error::Misc(Fault::IndexOutOfBounds));
            }
            let before = elems[index as usize - 1];
            match set_in_list(&mut thread.heap, this, index as usize, before) {
                Ok(()) => {},
                Err(f) => {
                    return Err(Error::Misc(f));
                },
            }
            thread.stackframe.locals.set(5, index - 1);
            assert(thread.stackframe@.locals =~= l0.update(5, (index - 1) as u32));
            if index > 1 {
                thread.pc_register = 2;
            }
        }
        Ok(())
    } else {
        match set_in_list(&mut thread.heap, this, index as usize, target) {
            Ok(()) => {},
            Err(f) => {
                return Err(Error::Misc(f));
            },
        }
        if partition == u32::MAX {
            return Err(Error::Misc(Fault::Overflow));
        }
        if partition + 1 >= length {
            thread.return_nothing()
        } else {
            thread.pc_register = 1;
            thread.stackframe.locals.set(2, partition + 1);
            assert(thread.stackframe@.locals =~= l0.update(2, (partition + 1) as u32));
            Ok(())
        }
    }
}

/// `t1` is `t0` at the program counter `pc` with the locals `locals`, the
/// operand stack `stack` and the heap `h`.
pub open spec fn stepped(t0: &Thread, t1: &Thread, pc: usize, locals: Seq<u32>, stack: Seq<u32>, h: HeapView) -> bool {
    &&& t1.pc_register == pc
    &&& t1.stackframe@ == (crate::frame::StackFrameView { locals, stack, ..t0.stackframe@ })
    &&& frames_view(t1.stack@) == frames_view(t0.stack@)
    &&& t1.heap@ == h
    &&& t1.class_area@ == t0.class_area@
    &&& t1.method_area@ == t0.method_area@
}

/// `ArrayList.toString`, one step of writing the elements into a builder
/// kept in the locals (list, builder, index, length), the step being the
/// program counter: 0 makes the builder `[`, 1 calls the element's
/// `toString` (coming back at 2), 2 adds the text that came back and
/// returns the builder's text with `]` after the last element.
pub fn array_list_to_string(thread: &mut Thread) -> (r: Result<(), Error>)
    requires
        old(thread).wf(),
    ensures
        final(thread).wf(),
        ({
            let l = old(thread).stackframe@.locals;
            let st = old(thread).stackframe@.stack;
            let h = old(thread).heap@;
            let pc = old(thread).pc_register;
            if l.len() < 4 {
                r == Err::<(), Error>(Error::Misc(Fault::LocalOutOfRange)) && *final(thread) == *old(thread)
            } else if pc > 2 {
                r == Err::<(), Error>(Error::Misc(Fault::PcOutOfRange)) && *final(thread) == *old(thread)
            } else if pc == 0 {
                let k = crate::data::class_position(old(thread).class_area@.classes, "java/lang/StringBuilder"@);
                if k < 0 {
                    (r matches Err(e) && e@ == crate::error::ErrorView::ClassResolution("java/lang/StringBuilder"@))
                        && stepped(old(thread), final(thread), 1, l, st, h)
                } else {
                    let c = old(thread).class_area@.classes[k];
                    let o = ObjectView {
                        fields: c.initial_fields,
                        native_fields: seq![NativeFieldView::Str(seq!['['])],
                        class: c.this,
                    };
                    let (h1, b) = crate::dynamic::heap_with(h, o);
                    match crate::heap::spec_inc_ref(h1, b) {
                        Err(f) => r == Err::<(), Error>(Error::Misc(f)) && stepped(old(thread), final(thread), 1, l, st, h1),
                        Ok(h2) => match list_of(h2, l[0]) {
                            Err(f) => r == Err::<(), Error>(Error::Misc(f)) && stepped(
                                old(thread),
                                final(thread),
                                1,
                                l,
                                st,
                                h2,
                            ),
                            Ok(items) => r is Ok && stepped(
                                old(thread),
                                final(thread),
                                1,
                                l.update(1, b).update(2, 0).update(3, (items.len() % 0x1_0000_0000) as u32),
                                st,
                                h2,
                            ),
                        },
                    }
                }
            } else if pc == 1 {
                match list_of(h, l[0]) {
                    Err(f) => r == Err::<(), Error>(Error::Misc(f)) && stepped(old(thread), final(thread), 2, l, st, h),
                    Ok(items) => if l[2] >= items.len() {
                        r == Err::<(), Error>(Error::Misc(Fault::IndexOutOfBounds)) && stepped(
                            old(thread),
                            final(thread),
                            2,
                            l,
                            st,
                            h,
                        )
                    } else {
                        crate::native::function::call_on_effect(
                            &Thread { pc_register: 2, ..*old(thread) },
                            final(thread),
                            r,
                            items[l[2] as int],
                            "toString"@,
                            to_string_view(),
                            2,
                        )
                    },
                }
            } else if st.len() == 0 {
                r == Err::<(), Error>(Error::Misc(Fault::StackUnderflow)) && stepped(old(thread), final(thread), 3, l, st, h)
            } else {
                let rest = st.drop_last();
                match string_at(h, st.last()) {
                    Err(f) => r == Err::<(), Error>(Error::Misc(f)) && stepped(old(thread), final(thread), 3, l, rest, h),
                    Ok(text) => match collection_of(h, l[1]) {
                        Err(f) => r == Err::<(), Error>(Error::Misc(f)) && stepped(
                            old(thread),
                            final(thread),
                            3,
                            l,
                            rest,
                            h,
                        ),
                        Ok(NativeFieldView::Str(acc0)) => {
                            let acc = (if l[2] != 0 {
                                acc0 + seq![',', ' ']
                            } else {
                                acc0
                            }) + text;
                            if l[2] == 0xFFFF_FFFF {
                                r == Err::<(), Error>(Error::Misc(Fault::Overflow)) && stepped(
                                    old(thread),
                                    final(thread),
                                    3,
                                    l,
                                    rest,
                                    with_collection(h, l[1], NativeFieldView::Str(acc)),
                                )
                            } else if l[2] + 1 >= l[3] {
                                let done = acc.push(']');
                                let (h3, p) = crate::heap::spec_allocate_str(
                                    with_collection(h, l[1], NativeFieldView::Str(done)),
                                    done,
                                );
                                word_returned(old(thread), h3, final(thread), p, r)
                            } else {
                                r is Ok && stepped(
                                    old(thread),
                                    final(thread),
                                    1,
                                    l.update(2, (l[2] + 1) as u32),
                                    rest,
                                    with_collection(h, l[1], NativeFieldView::Str(acc)),
                                )
                            }
                        },
                        Ok(_) => r == Err::<(), Error>(Error::Misc(Fault::WrongObjectKind)) && stepped(
                            old(thread),
                            final(thread),
                            3,
                            l,
                            rest,
                            h,
                        ),
                    },
                }
            }
        }),
{
    if thread.stackframe.locals.len() < 4 {
        return Err(Error::Misc(Fault::LocalOutOfRange));
    }
    let this = thread.stackframe.locals[0];
    let builder = thread.stackframe.locals[1];
    let index = thread.stackframe.locals[2];
    let length = thread.stackframe.locals[3];
    let pc = thread.pc_register;
    if pc > 2 {
        return Err(Error::Misc(Fault::PcOutOfRange));
    }
    thread.pc_register = pc + 1;
    if pc == 0 {
        let name = chars("java/lang/StringBuilder");
        let class = match thread.class_area.search(name.as_slice()) {
            Some(c) => c,
            None => {
                return Err(Error::class_resolution(&name));
            },
        };
        let mut obj = Object::from_class(&class);
        let open = vec!['['];
        assert(open@ =~= seq!['[']);
        obj.native_fields = vec![NativeField::Str(open)];
        proof {
            let sv = NativeFieldView::Str(seq!['[']);
            assert(obj@.native_fields =~= seq![sv]);
        }
        let b = thread.heap.allocate(obj);
        match thread.heap.inc_ref(b) {
            Ok(()) => {},
            Err(f) => {
                return Err(Error::Misc(f));
            },
        }
        let elems = match list_elements(&thread.heap, this) {
            Ok(v) => v,
            Err(f) => {
                return Err(Error::Misc(f));
            },
        };
        let n64 = elems.len() as u64;
        #[verifier::truncate]
        let n = n64 as u32;
        assert(n == n64 % 0x1_0000_0000) by (bit_vector)
            requires
                n == n64 as u32,
        ;
        let ghost l0 = thread.stackframe@.locals;
        thread.stackframe.locals.set(1, b);
        thread.stackframe.locals.set(2, 0);
        thread.stackframe.locals.set(3, n);
        assert(thread.stackframe@.locals =~= l0.update(1, b).update(2, 0).update(3, n));
        Ok(())
    } else if pc == 1 {
        let elems = match list_elements(&thread.heap, this) {
            Ok(v) => v,
            Err(f) => {
                return Err(Error::Misc(f));
            },
        };
        if index as usize >= elems.len() {
            return Err(Error::Misc(Fault::IndexOutOfBounds));
        }
        let next = elems[index as usize];
        let name = chars("toString");
        let desc = to_string_descriptor();
        call_on(thread, next, name.as_slice(), &desc, 2)
    } else {
        if thread.stackframe.operand_stack.len() == 0 {
            return Err(Error::Misc(Fault::StackUnderflow));
        }
        let s = thread.stackframe.operand_stack.pop().unwrap();
        let text = match text_of(&thread.heap, s) {
            Ok(t) => t,
            Err(e) => {
                return Err(e);
            },
        };
        let ghost h0 = thread.heap@;
        let (i, o, f) = match take_collection(&mut thread.heap, builder) {
            Ok(v) => v,
            Err(f) => {
                return Err(Error::Misc(f));
            },
        };
        let ghost ob = object_at(h0, builder as int)->Some_0;
        let ghost ov = o@;
        let mut acc = match f {
            NativeField::Str(t) => t,
            other => {
                let ghost xv = other@;
                restore_collection(&mut thread.heap, i, o, other);
                proof {
                    assert(seq![xv] + ov.native_fields =~= ob.native_fields);
                    assert(thread.heap@.contents =~= h0.contents);
                    assert(thread.heap@ == h0);
                }
                return Err(Error::Misc(Fault::WrongObjectKind));
            },
        };
        let ghost acc0 = acc@;
        if index != 0 {
            acc.push(',');
            acc.push(' ');
        }
        let ghost sep = acc@;
        assert(sep == (if index != 0 { acc0 + seq![',', ' '] } else { acc0 }));
        let mut k: usize = 0;
        while k < text.len()
            invariant
                k <= text@.len(),
                acc@ == sep + text@.subrange(0, k as int),
            decreases text@.len() - k,
        {
            acc.push(text[k]);
            k = k + 1;
            assert(acc@ =~= sep + text@.subrange(0, k as int));
        }
        assert(text@.subrange(0, k as int) =~= text@);
        if index == u32::MAX {
            let ghost av = acc@;
            restore_collection(&mut thread.heap, i, o, NativeField::Str(acc));
            proof {
                assert(seq![NativeFieldView::Str(av)] + ov.native_fields =~= ob.native_fields.update(0, NativeFieldView::Str(av)));
                assert(thread.heap@.contents =~= with_collection(h0, builder, NativeFieldView::Str(av)).contents);
            }
            return Err(Error::Misc(Fault::Overflow));
        }
        thread.stackframe.locals.set(2, index + 1);
        if index + 1 >= length {
            acc.push(']');
            let done = crate::text::copy_chars(&acc);
            let ghost av = acc@;
            restore_collection(&mut thread.heap, i, o, NativeField::Str(acc));
            proof {
                assert(seq![NativeFieldView::Str(av)] + ov.native_fields =~= ob.native_fields.update(0, NativeFieldView::Str(av)));
                assert(thread.heap@.contents =~= with_collection(h0, builder, NativeFieldView::Str(av)).contents);
            }
            crate::native::object::return_text(thread, done)
        } else {
            let ghost av = acc@;
            restore_collection(&mut thread.heap, i, o, NativeField::Str(acc));
            proof {
                assert(seq![NativeFieldView::Str(av)] + ov.native_fields =~= ob.native_fields.update(0, NativeFieldView::Str(av)));
                assert(thread.heap@.contents =~= with_collection(h0, builder, NativeFieldView::Str(av)).contents);
            }
            thread.pc_register = 1;
            Ok(())
        }
    }
}

/// Getting a key from a map after putting a value under it gives that
/// value; other keys give what they gave.
pub proof fn law_map_put_then_get(h: HeapView, ptr: u32, k: u32, v: u32, k2: u32)
    requires
        map_put(h, ptr, k, v) is Ok,
    ensures
        map_value(map_put(h, ptr, k, v)->Ok_0, ptr, k) == Ok::<u32, Fault>(v),
        k2 != k ==> map_value(map_put(h, ptr, k, v)->Ok_0, ptr, k2) == map_value(h, ptr, k2),
{
    let m = collection_of(h, ptr)->Ok_0->HashMap_0;
    crate::data::lemma_insert_lookup(m, k, v, k);
    crate::data::lemma_insert_lookup(m, k, v, k2);
}

/// A set holds a hash code once it has taken it.
pub proof fn law_set_insert_then_contains(h: HeapView, ptr: u32, k: u32)
    requires
        set_put(h, ptr, k) is Ok,
    ensures
        set_has(set_put(h, ptr, k)->Ok_0, ptr, k) == Ok::<u32, Fault>(1),
{
    let s = collection_of(h, ptr)->Ok_0->HashSet_0;
    if !s.contains(k) {
        assert(s.push(k)[s.len() as int] == k);
    }
}

/// Taking a hash code a set already holds leaves it as it was.
pub proof fn law_set_insert_twice(h: HeapView, ptr: u32, k: u32)
    requires
        set_put(h, ptr, k) is Ok,
    ensures
        set_put(set_put(h, ptr, k)->Ok_0, ptr, k) is Ok,
        collection_of(set_put(set_put(h, ptr, k)->Ok_0, ptr, k)->Ok_0, ptr) == collection_of(
            set_put(h, ptr, k)->Ok_0,
            ptr,
        ),
{
    let s = collection_of(h, ptr)->Ok_0->HashSet_0;
    law_set_insert_then_contains(h, ptr, k);
}

/// A list that takes an element holds the elements it held, then that one.
pub proof fn law_list_push(h: HeapView, ptr: u32, x: u32)
    requires
        list_push(h, ptr, x) is Ok,
    ensures
        list_of(list_push(h, ptr, x)->Ok_0, ptr) == Ok::<Seq<u32>, Fault>(list_of(h, ptr)->Ok_0.push(x)),
{
}

} // verus!
