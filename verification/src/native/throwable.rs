//! The exception classes of the library.
use vstd::prelude::*;

use crate::data::{WorkingClassArea, WorkingMethodArea};
use crate::native::{
    add_method, file_with_methods, keys_kept, library_class, library_field, native_method, natives_filed, no_args,
    object_type, string_type, ARITHMETIC_TO_STRING, ILLEGAL_ARGUMENT_TO_STRING, NATIVE, NOOP, PUBLIC_NATIVE,
};
use crate::raw_class::{RawClassView, RawMethod};

verus! {

/// The methods of `java/lang/Throwable`, in the order they are filed.
pub open spec fn lib_throwable_methods() -> Seq<crate::raw_class::RawMethodView> {
    seq![
        crate::native::native_view(PUBLIC_NATIVE, "<init>"@, crate::native::mdesc(seq![], None), NOOP),
    ]
}

/// `java/lang/Throwable` before its methods are listed.
pub open spec fn lib_throwable_base() -> crate::raw_class::RawClassView {
    crate::raw_class::RawClassView {
        fields: seq![(crate::native::lib_field(NATIVE, "message"@, crate::class::FieldTypeView::Object("java/lang/String"@)), 0usize), (crate::native::lib_field(NATIVE, "cause"@, crate::class::FieldTypeView::Object("java/lang/Throwable"@)), 1usize)],
        ..crate::raw_class::new_class_view(PUBLIC_NATIVE, "java/lang/Throwable"@, "java/lang/Object"@)
    }
}

/// The methods of `java/lang/Exception`, in the order they are filed.
pub open spec fn lib_exception_methods() -> Seq<crate::raw_class::RawMethodView> {
    seq![
        crate::native::native_view(PUBLIC_NATIVE, "<init>"@, crate::native::mdesc(seq![], None), NOOP),
    ]
}

/// `java/lang/Exception` before its methods are listed.
pub open spec fn lib_exception_base() -> crate::raw_class::RawClassView {
    crate::raw_class::new_class_view(PUBLIC_NATIVE, "java/lang/Exception"@, "java/lang/Throwable"@)
}

/// The methods of `java/lang/RuntimeException`, in the order they are filed.
pub open spec fn lib_runtime_exception_methods() -> Seq<crate::raw_class::RawMethodView> {
    seq![
        crate::native::native_view(PUBLIC_NATIVE, "<init>"@, crate::native::mdesc(seq![], None), NOOP),
    ]
}

/// `java/lang/RuntimeException` before its methods are listed.
pub open spec fn lib_runtime_exception_base() -> crate::raw_class::RawClassView {
    crate::raw_class::new_class_view(PUBLIC_NATIVE, "java/lang/RuntimeException"@, "java/lang/Exception"@)
}

/// The methods of `java/lang/IllegalArgumentException`, in the order they are filed.
pub open spec fn lib_illegal_argument_exception_methods() -> Seq<crate::raw_class::RawMethodView> {
    seq![
        crate::native::native_view(PUBLIC_NATIVE, "<init>"@, crate::native::mdesc(seq![], None), NOOP),
        crate::native::native_view(PUBLIC_NATIVE, "toString"@, crate::native::mdesc(seq![], Some(crate::class::FieldTypeView::Object("java/lang/String"@))), ILLEGAL_ARGUMENT_TO_STRING),
    ]
}

/// `java/lang/IllegalArgumentException` before its methods are listed.
pub open spec fn lib_illegal_argument_exception_base() -> crate::raw_class::RawClassView {
    crate::raw_class::new_class_view(PUBLIC_NATIVE, "java/lang/IllegalArgumentException"@, "java/lang/RuntimeException"@)
}

/// The methods of `java/lang/ArithmeticException`, in the order they are filed.
pub open spec fn lib_arithmetic_exception_methods() -> Seq<crate::raw_class::RawMethodView> {
    seq![
        crate::native::native_view(PUBLIC_NATIVE, "toString"@, crate::native::mdesc(seq![], Some(crate::class::FieldTypeView::Object("java/lang/String"@))), ARITHMETIC_TO_STRING),
        crate::native::native_view(PUBLIC_NATIVE, "<init>"@, crate::native::mdesc(seq![], None), NOOP),
    ]
}

/// `java/lang/ArithmeticException` before its methods are listed.
pub open spec fn lib_arithmetic_exception_base() -> crate::raw_class::RawClassView {
    crate::raw_class::new_class_view(PUBLIC_NATIVE, "java/lang/ArithmeticException"@, "java/lang/RuntimeException"@)
}

/// The method area after filing the methods of the exception classes, in order.
pub open spec fn lib_throwables_methods_filed(ma: Seq<(crate::data::MethodKey, (Seq<char>, crate::raw_class::RawMethodView))>) -> Seq<(crate::data::MethodKey, (Seq<char>, crate::raw_class::RawMethodView))> {
    let a = ma;
    let a = crate::native::file_methods(a, "java/lang/Throwable"@, lib_throwable_methods());
    let a = crate::native::file_methods(a, "java/lang/Exception"@, lib_exception_methods());
    let a = crate::native::file_methods(a, "java/lang/RuntimeException"@, lib_runtime_exception_methods());
    let a = crate::native::file_methods(a, "java/lang/IllegalArgumentException"@, lib_illegal_argument_exception_methods());
    let a = crate::native::file_methods(a, "java/lang/ArithmeticException"@, lib_arithmetic_exception_methods());
    a
}

/// The class area after filing the exception classes, in order.
pub open spec fn lib_throwables_classes_filed(ca: Seq<(Seq<char>, crate::raw_class::RawClassView)>) -> Seq<(Seq<char>, crate::raw_class::RawClassView)> {
    let a = ca;
    let a = crate::data::insert_entry(a, "java/lang/Throwable"@, crate::native::with_method_names(lib_throwable_base(), lib_throwable_methods()));
    let a = crate::data::insert_entry(a, "java/lang/Exception"@, crate::native::with_method_names(lib_exception_base(), lib_exception_methods()));
    let a = crate::data::insert_entry(a, "java/lang/RuntimeException"@, crate::native::with_method_names(lib_runtime_exception_base(), lib_runtime_exception_methods()));
    let a = crate::data::insert_entry(a, "java/lang/IllegalArgumentException"@, crate::native::with_method_names(lib_illegal_argument_exception_base(), lib_illegal_argument_exception_methods()));
    let a = crate::data::insert_entry(a, "java/lang/ArithmeticException"@, crate::native::with_method_names(lib_arithmetic_exception_base(), lib_arithmetic_exception_methods()));
    a
}

/// Files `Throwable`, `Exception`, `RuntimeException`,
/// `IllegalArgumentException` and `ArithmeticException`, each with a
/// constructor that does nothing; the last two write their names as their
/// `toString`. `Throwable` lists the fields `message` and `cause`, and has
/// no field words for them.
pub fn add_throwables(
    method_area: &mut WorkingMethodArea,
    class_area: &mut WorkingClassArea,
    Ghost(start): Ghost<Seq<(Seq<char>, RawClassView)>>,
)
    requires
        natives_filed(old(method_area)@, old(class_area)@, start),
    ensures
        final(method_area)@ == lib_throwables_methods_filed(old(method_area)@),
        final(class_area)@ == lib_throwables_classes_filed(old(class_area)@),
        natives_filed(final(method_area)@, final(class_area)@, start),
        keys_kept(old(class_area)@, final(class_area)@),
        crate::data::lookup_entry(final(class_area)@, "java/lang/Throwable"@) is Some,
        crate::data::lookup_entry(final(class_area)@, "java/lang/Exception"@) is Some,
        crate::data::lookup_entry(final(class_area)@, "java/lang/RuntimeException"@) is Some,
        crate::data::lookup_entry(final(class_area)@, "java/lang/IllegalArgumentException"@) is Some,
        crate::data::lookup_entry(final(class_area)@, "java/lang/ArithmeticException"@) is Some,
{
    let mut throwable = library_class(PUBLIC_NATIVE, "java/lang/Throwable", "java/lang/Object");
    throwable.fields.push((library_field(NATIVE, "message", string_type()), 0));
    throwable.fields.push((library_field(NATIVE, "cause", object_type("java/lang/Throwable")), 1));
    let mut ms: Vec<RawMethod> = Vec::new();
    add_method(&mut ms, native_method(PUBLIC_NATIVE, "<init>", no_args(None), NOOP));
    proof {
        assert(crate::raw_class::raw_methods_view(ms@) =~~= lib_throwable_methods());
        assert(throwable@.fields =~= lib_throwable_base().fields);
        assert(throwable@ =~~= lib_throwable_base());
    }
    file_with_methods(throwable, ms, method_area, class_area, Ghost(start));

    let exception = library_class(PUBLIC_NATIVE, "java/lang/Exception", "java/lang/Throwable");
    let mut ms: Vec<RawMethod> = Vec::new();
    add_method(&mut ms, native_method(PUBLIC_NATIVE, "<init>", no_args(None), NOOP));
    proof {
        assert(crate::raw_class::raw_methods_view(ms@) =~~= lib_exception_methods());
        assert(exception@ =~~= lib_exception_base());
    }
    file_with_methods(exception, ms, method_area, class_area, Ghost(start));

    let runtime = library_class(PUBLIC_NATIVE, "java/lang/RuntimeException", "java/lang/Exception");
    let mut ms: Vec<RawMethod> = Vec::new();
    add_method(&mut ms, native_method(PUBLIC_NATIVE, "<init>", no_args(None), NOOP));
    proof {
        assert(crate::raw_class::raw_methods_view(ms@) =~~= lib_runtime_exception_methods());
        assert(runtime@ =~~= lib_runtime_exception_base());
    }
    file_with_methods(runtime, ms, method_area, class_area, Ghost(start));

    let illegal = library_class(PUBLIC_NATIVE, "java/lang/IllegalArgumentException", "java/lang/RuntimeException");
    let mut ms: Vec<RawMethod> = Vec::new();
    add_method(&mut ms, native_method(PUBLIC_NATIVE, "<init>", no_args(None), NOOP));
    add_method(
        &mut ms,
        native_method(PUBLIC_NATIVE, "toString", no_args(Some(string_type())), ILLEGAL_ARGUMENT_TO_STRING),
    );
    proof {
        assert(crate::raw_class::raw_methods_view(ms@) =~~= lib_illegal_argument_exception_methods());
        assert(illegal@ =~~= lib_illegal_argument_exception_base());
    }
    file_with_methods(illegal, ms, method_area, class_area, Ghost(start));

    let arithmetic = library_class(PUBLIC_NATIVE, "java/lang/ArithmeticException", "java/lang/RuntimeException");
    let mut ms: Vec<RawMethod> = Vec::new();
    add_method(&mut ms, native_method(PUBLIC_NATIVE, "toString", no_args(Some(string_type())), ARITHMETIC_TO_STRING));
    add_method(&mut ms, native_method(PUBLIC_NATIVE, "<init>", no_args(None), NOOP));
    proof {
        assert(crate::raw_class::raw_methods_view(ms@) =~~= lib_arithmetic_exception_methods());
        assert(arithmetic@ =~~= lib_arithmetic_exception_base());
    }
    file_with_methods(arithmetic, ms, method_area, class_area, Ghost(start));
}

} // verus!
