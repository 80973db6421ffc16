//! The type-mapping registry.
//!
//! Every type family representable at the extension boundary implements
//! [`StubType`], the capability of producing a [`TypeInfo`] for output
//! (return) position and one for input (parameter) position.  Lookup is
//! static: the mapping is attached to the type, not to runtime values, so it
//! is exhaustive per type and new families join the system by adding an
//! implementation, never by editing a central table.
//!
//! A family that declares no explicit input mapping uses its output mapping
//! for both positions.  Reference and ownership wrappers ([`Owned`],
//! [`Shared`], [`Exclusive`], [`Borrowed`]) delegate both positions verbatim
//! to the wrapped family: stub output is insensitive to how a value is held,
//! only to what it is.

use vstd::prelude::*;
use core::marker::PhantomData;
use crate::type_info::{TypeInfo, TypeInfoModel};

verus! {

/// The capability of a representable type family: a mapping to the Python
/// annotation used in output position, and one for input position that
/// defaults to the output mapping.
pub trait StubType {
    /// Annotation and imports where a value appears as a return value.
    spec fn output_model() -> TypeInfoModel;

    /// Annotation and imports where a value appears as a parameter; without
    /// an explicit override this is the output mapping.
    open spec fn input_model() -> TypeInfoModel {
        Self::output_model()
    }

    /// Builds the output-position `TypeInfo`.
    fn type_output() -> (r: TypeInfo)
        ensures
            r.wf(),
            r@ == Self::output_model(),
    ;

    /// Builds the input-position `TypeInfo`.
    fn type_input() -> (r: TypeInfo)
        ensures
            r.wf(),
            r@ == Self::input_model(),
    ;
}

/// A dynamically typed or opaque value: anything at all.
pub struct AnyType;

/// A numeric integer value.
pub struct IntType;

/// A numeric floating-point value.
pub struct FloatType;

/// An ordered, list-like sequence.
pub struct ListType;

/// A fixed tuple.
pub struct TupleType;

/// A slice value.
pub struct SliceType;

/// A dict-like mapping.
pub struct DictType;

/// An unordered collection of unique elements.
pub struct SetType;

/// A text string, owned or borrowed.
pub struct StrType;

/// A mutable byte buffer.
pub struct ByteArrayType;

/// An immutable byte buffer, owned or borrowed.
pub struct BytesType;

/// A class object (the type of a type).
pub struct TypeObjectType;

/// An ordering-comparison enumerator, exposed to Python as an integer.
pub struct ComparisonType;

/// A generic iterator value.
pub struct IteratorType;

/// A calendar date.
pub struct DateType;

/// A calendar date with time of day.
pub struct DateTimeType;

/// A duration.
pub struct DurationType;

/// A time of day.
pub struct TimeType;

/// Time-zone information.
pub struct TzInfoType;

impl StubType for AnyType {
    open spec fn output_model() -> TypeInfoModel {
        TypeInfoModel { name: "typing.Any"@, imports: seq!["typing"@] }
    }

    fn type_output() -> (r: TypeInfo) {
        proof {
            reveal_strlit("typing.Any");
        }
        TypeInfo::with_import("typing.Any", "typing")
    }

    fn type_input() -> (r: TypeInfo) {
        Self::type_output()
    }
}

impl StubType for IntType {
    open spec fn output_model() -> TypeInfoModel {
        TypeInfoModel { name: "int"@, imports: Seq::empty() }
    }

    fn type_output() -> (r: TypeInfo) {
        proof {
            reveal_strlit("int");
        }
        TypeInfo::simple("int")
    }

    fn type_input() -> (r: TypeInfo) {
        Self::type_output()
    }
}

impl StubType for FloatType {
    open spec fn output_model() -> TypeInfoModel {
        TypeInfoModel { name: "float"@, imports: Seq::empty() }
    }

    fn type_output() -> (r: TypeInfo) {
        proof {
            reveal_strlit("float");
        }
        TypeInfo::simple("float")
    }

    fn type_input() -> (r: TypeInfo) {
        Self::type_output()
    }
}

impl StubType for ListType {
    open spec fn output_model() -> TypeInfoModel {
        TypeInfoModel { name: "list"@, imports: Seq::empty() }
    }

    fn type_output() -> (r: TypeInfo) {
        proof {
            reveal_strlit("list");
        }
        TypeInfo::simple("list")
    }

    fn type_input() -> (r: TypeInfo) {
        Self::type_output()
    }
}

impl StubType for TupleType {
    open spec fn output_model() -> TypeInfoModel {
        TypeInfoModel { name: "tuple"@, imports: Seq::empty() }
    }

    fn type_output() -> (r: TypeInfo) {
        proof {
            reveal_strlit("tuple");
        }
        TypeInfo::simple("tuple")
    }

    fn type_input() -> (r: TypeInfo) {
        Self::type_output()
    }
}

impl StubType for SliceType {
    open spec fn output_model() -> TypeInfoModel {
        TypeInfoModel { name: "slice"@, imports: Seq::empty() }
    }

    fn type_output() -> (r: TypeInfo) {
        proof {
            reveal_strlit("slice");
        }
        TypeInfo::simple("slice")
    }

    fn type_input() -> (r: TypeInfo) {
        Self::type_output()
    }
}

impl StubType for DictType {
    open spec fn output_model() -> TypeInfoModel {
        TypeInfoModel { name: "dict"@, imports: Seq::empty() }
    }

    fn type_output() -> (r: TypeInfo) {
        proof {
            reveal_strlit("dict");
        }
        TypeInfo::simple("dict")
    }

    fn type_input() -> (r: TypeInfo) {
        Self::type_output()
    }
}

impl StubType for SetType {
    open spec fn output_model() -> TypeInfoModel {
        TypeInfoModel { name: "set"@, imports: Seq::empty() }
    }

    fn type_output() -> (r: TypeInfo) {
        proof {
            reveal_strlit("set");
        }
        TypeInfo::simple("set")
    }

    fn type_input() -> (r: TypeInfo) {
        Self::type_output()
    }
}

impl StubType for StrType {
    open spec fn output_model() -> TypeInfoModel {
        TypeInfoModel { name: "str"@, imports: Seq::empty() }
    }

    fn type_output() -> (r: TypeInfo) {
        proof {
            reveal_strlit("str");
        }
        TypeInfo::simple("str")
    }

    fn type_input() -> (r: TypeInfo) {
        Self::type_output()
    }
}

impl StubType for ByteArrayType {
    open spec fn output_model() -> TypeInfoModel {
        TypeInfoModel { name: "bytearray"@, imports: Seq::empty() }
    }

    fn type_output() -> (r: TypeInfo) {
        proof {
            reveal_strlit("bytearray");
        }
        TypeInfo::simple("bytearray")
    }

    fn type_input() -> (r: TypeInfo) {
        Self::type_output()
    }
}

impl StubType for BytesType {
    open spec fn output_model() -> TypeInfoModel {
        TypeInfoModel { name: "bytes"@, imports: Seq::empty() }
    }

    fn type_output() -> (r: TypeInfo) {
        proof {
            reveal_strlit("bytes");
        }
        TypeInfo::simple("bytes")
    }

    fn type_input() -> (r: TypeInfo) {
        Self::type_output()
    }
}

impl StubType for TypeObjectType {
    open spec fn output_model() -> TypeInfoModel {
        TypeInfoModel { name: "type"@, imports: Seq::empty() }
    }

    fn type_output() -> (r: TypeInfo) {
        proof {
            reveal_strlit("type");
        }
        TypeInfo::simple("type")
    }

    fn type_input() -> (r: TypeInfo) {
        Self::type_output()
    }
}

impl StubType for ComparisonType {
    open spec fn output_model() -> TypeInfoModel {
        TypeInfoModel { name: "int"@, imports: Seq::empty() }
    }

    fn type_output() -> (r: TypeInfo) {
        proof {
            reveal_strlit("int");
        }
        TypeInfo::simple("int")
    }

    fn type_input() -> (r: TypeInfo) {
        Self::type_output()
    }
}

impl StubType for IteratorType {
    open spec fn output_model() -> TypeInfoModel {
        TypeInfoModel { name: "collections.abc.Iterator"@, imports: seq!["collections.abc"@] }
    }

    fn type_output() -> (r: TypeInfo) {
        proof {
            reveal_strlit("collections.abc.Iterator");
        }
        TypeInfo::with_import("collections.abc.Iterator", "collections.abc")
    }

    fn type_input() -> (r: TypeInfo) {
        Self::type_output()
    }
}

impl StubType for DateType {
    open spec fn output_model() -> TypeInfoModel {
        TypeInfoModel { name: "datetime.date"@, imports: seq!["datetime"@] }
    }

    fn type_output() -> (r: TypeInfo) {
        proof {
            reveal_strlit("datetime.date");
        }
        TypeInfo::with_import("datetime.date", "datetime")
    }

    fn type_input() -> (r: TypeInfo) {
        Self::type_output()
    }
}

impl StubType for DateTimeType {
    open spec fn output_model() -> TypeInfoModel {
        TypeInfoModel { name: "datetime.datetime"@, imports: seq!["datetime"@] }
    }

    fn type_output() -> (r: TypeInfo) {
        proof {
            reveal_strlit("datetime.datetime");
        }
        TypeInfo::with_import("datetime.datetime", "datetime")
    }

    fn type_input() -> (r: TypeInfo) {
        Self::type_output()
    }
}

impl StubType for DurationType {
    open spec fn output_model() -> TypeInfoModel {
        TypeInfoModel { name: "datetime.timedelta"@, imports: seq!["datetime"@] }
    }

    fn type_output() -> (r: TypeInfo) {
        proof {
            reveal_strlit("datetime.timedelta");
        }
        TypeInfo::with_import("datetime.timedelta", "datetime")
    }

    fn type_input() -> (r: TypeInfo) {
        Self::type_output()
    }
}

impl StubType for TimeType {
    open spec fn output_model() -> TypeInfoModel {
        TypeInfoModel { name: "datetime.time"@, imports: seq!["datetime"@] }
    }

    fn type_output() -> (r: TypeInfo) {
        proof {
            reveal_strlit("datetime.time");
        }
        TypeInfo::with_import("datetime.time", "datetime")
    }

    fn type_input() -> (r: TypeInfo) {
        Self::type_output()
    }
}

impl StubType for TzInfoType {
    open spec fn output_model() -> TypeInfoModel {
        TypeInfoModel { name: "datetime.tzinfo"@, imports: seq!["datetime"@] }
    }

    fn type_output() -> (r: TypeInfo) {
        proof {
            reveal_strlit("datetime.tzinfo");
        }
        TypeInfo::with_import("datetime.tzinfo", "datetime")
    }

    fn type_input() -> (r: TypeInfo) {
        Self::type_output()
    }
}

/// An owning handle to a value of family `T`.
pub struct Owned<T> {
    marker: PhantomData<T>,
}

/// A shared reference to a value of family `T`.
pub struct Shared<T> {
    marker: PhantomData<T>,
}

/// An exclusive (mutable) reference to a value of family `T`.
pub struct Exclusive<T> {
    marker: PhantomData<T>,
}

/// A borrowed view of a value of family `T`.
pub struct Borrowed<T> {
    marker: PhantomData<T>,
}

impl<T: StubType> StubType for Owned<T> {
    open spec fn output_model() -> TypeInfoModel {
        T::output_model()
    }

    open spec fn input_model() -> TypeInfoModel {
        T::input_model()
    }

    fn type_output() -> (r: TypeInfo) {
        T::type_output()
    }

    fn type_input() -> (r: TypeInfo) {
        T::type_input()
    }
}

impl<T: StubType> StubType for Shared<T> {
    open spec fn output_model() -> TypeInfoModel {
        T::output_model()
    }

    open spec fn input_model() -> TypeInfoModel {
        T::input_model()
    }

    fn type_output() -> (r: TypeInfo) {
        T::type_output()
    }

    fn type_input() -> (r: TypeInfo) {
        T::type_input()
    }
}

impl<T: StubType> StubType for Exclusive<T> {
    open spec fn output_model() -> TypeInfoModel {
        T::output_model()
    }

    open spec fn input_model() -> TypeInfoModel {
        T::input_model()
    }

    fn type_output() -> (r: TypeInfo) {
        T::type_output()
    }

    fn type_input() -> (r: TypeInfo) {
        T::type_input()
    }
}

impl<T: StubType> StubType for Borrowed<T> {
    open spec fn output_model() -> TypeInfoModel {
        T::output_model()
    }

    open spec fn input_model() -> TypeInfoModel {
        T::input_model()
    }

    fn type_output() -> (r: TypeInfo) {
        T::type_output()
    }

    fn type_input() -> (r: TypeInfo) {
        T::type_input()
    }
}

/// Reference transparency: wrapping a family in any reference or ownership
/// variant leaves both the input and the output mapping exactly as the
/// family's own, so stub output does not depend on how a value is held.
pub proof fn lemma_reference_transparency<T: StubType>()
    ensures
        Owned::<T>::output_model() == T::output_model(),
        Owned::<T>::input_model() == T::input_model(),
        Shared::<T>::output_model() == T::output_model(),
        Shared::<T>::input_model() == T::input_model(),
        Exclusive::<T>::output_model() == T::output_model(),
        Exclusive::<T>::input_model() == T::input_model(),
        Borrowed::<T>::output_model() == T::output_model(),
        Borrowed::<T>::input_model() == T::input_model(),
{
}

/// Every built-in family above declares only an output mapping, so its input
/// mapping falls back to the output mapping.
pub proof fn lemma_builtin_input_defaults()
    ensures
        AnyType::input_model() == AnyType::output_model(),
        IntType::input_model() == IntType::output_model(),
        FloatType::input_model() == FloatType::output_model(),
        ListType::input_model() == ListType::output_model(),
        TupleType::input_model() == TupleType::output_model(),
        SliceType::input_model() == SliceType::output_model(),
        DictType::input_model() == DictType::output_model(),
        SetType::input_model() == SetType::output_model(),
        StrType::input_model() == StrType::output_model(),
        ByteArrayType::input_model() == ByteArrayType::output_model(),
        BytesType::input_model() == BytesType::output_model(),
        TypeObjectType::input_model() == TypeObjectType::output_model(),
        ComparisonType::input_model() == ComparisonType::output_model(),
        IteratorType::input_model() == IteratorType::output_model(),
        DateType::input_model() == DateType::output_model(),
        DateTimeType::input_model() == DateTimeType::output_model(),
        DurationType::input_model() == DurationType::output_model(),
        TimeType::input_model() == TimeType::output_model(),
        TzInfoType::input_model() == TzInfoType::output_model(),
{
}

} // verus!
