//! The class `java/lang/Class`, whose objects stand for classes.
use vstd::prelude::*;

use crate::data::{WorkingClassArea, WorkingMethodArea};
use crate::native::{
    add_method, file_with_methods, keys_kept, library_class, native_method, natives_filed, no_args, string_type,
    CLASS_GET_NAME, PUBLIC_NATIVE,
};
use crate::raw_class::{RawClassView, RawMethod};

verus! {

/// The methods of `java/lang/Class`, in the order they are filed.
pub open spec fn lib_class_methods() -> Seq<crate::raw_class::RawMethodView> {
    seq![
        crate::native::native_view(PUBLIC_NATIVE, "getName"@, crate::native::mdesc(seq![], Some(crate::class::FieldTypeView::Object("java/lang/String"@))), CLASS_GET_NAME),
    ]
}

/// `java/lang/Class` before its methods are listed.
pub open spec fn lib_class_base() -> crate::raw_class::RawClassView {
    crate::raw_class::new_class_view(PUBLIC_NATIVE, "java/lang/Class"@, "java/lang/Object"@)
}

/// The method area after filing the methods of `Class`, in order.
pub open spec fn lib_class_class_methods_filed(ma: Seq<(crate::data::MethodKey, (Seq<char>, crate::raw_class::RawMethodView))>) -> Seq<(crate::data::MethodKey, (Seq<char>, crate::raw_class::RawMethodView))> {
    let a = ma;
    let a = crate::native::file_methods(a, "java/lang/Class"@, lib_class_methods());
    a
}

/// The class area after filing `Class`, in order.
pub open spec fn lib_class_class_classes_filed(ca: Seq<(Seq<char>, crate::raw_class::RawClassView)>) -> Seq<(Seq<char>, crate::raw_class::RawClassView)> {
    let a = ca;
    let a = crate::data::insert_entry(a, "java/lang/Class"@, crate::native::with_method_names(lib_class_base(), lib_class_methods()));
    a
}

/// Files `java/lang/Class`, with its `getName`.
pub fn add_class_class(
    method_area: &mut WorkingMethodArea,
    class_area: &mut WorkingClassArea,
    Ghost(start): Ghost<Seq<(Seq<char>, RawClassView)>>,
)
    requires
        natives_filed(old(method_area)@, old(class_area)@, start),
    ensures
        final(method_area)@ == lib_class_class_methods_filed(old(method_area)@),
        final(class_area)@ == lib_class_class_classes_filed(old(class_area)@),
        natives_filed(final(method_area)@, final(class_area)@, start),
        keys_kept(old(class_area)@, final(class_area)@),
        crate::data::lookup_entry(final(class_area)@, "java/lang/Class"@) is Some,
{
    let class_class = library_class(PUBLIC_NATIVE, "java/lang/Class", "java/lang/Object");
    let mut ms: Vec<RawMethod> = Vec::new();
    add_method(&mut ms, native_method(PUBLIC_NATIVE, "getName", no_args(Some(string_type())), CLASS_GET_NAME));
    proof {
        assert(crate::raw_class::raw_methods_view(ms@) =~~= lib_class_methods());
        assert(class_class@ =~~= lib_class_base());
    }
    file_with_methods(class_class, ms, method_area, class_area, Ghost(start));
}

} // verus!
