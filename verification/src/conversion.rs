//! The semantic contract of the conversion kinds: what marshalling into the
//! boundary and back does to the wrapper-visible value. Stated over a model of
//! boundary crossings and proved total: for every kind, marshalling in and
//! back out returns the value that went in, for every value that is neither
//! null nor absent.
use vstd::prelude::*;
use crate::rust_type::RustToFfiTypeConversion;

verus! {

/// A wrapper-visible value, by the shape its conversion kind expects: a plain
/// value of identical layout, a reference to an address, an optional
/// reference, a by-value aggregate read through an out-slot, an owning handle
/// on an address, or a named bitflag value.
#[verifier::ext_equal]
pub ghost enum WrapperValue {
    Plain(int),
    Reference(int),
    OptionalReference(Option<int>),
    Aggregate(int),
    OwnedHandle(int),
    Bitflags(int),
}

/// A value as it crosses the boundary: a plain value, a pointer that may be
/// null, or a plain integer carrying bitflags.
#[verifier::ext_equal]
pub ghost enum BoundaryValue {
    Plain(int),
    Pointer(Option<int>),
    Integer(int),
}

/// Whether a wrapper value has the shape its conversion kind expects.
pub open spec fn shape_fits(kind: RustToFfiTypeConversion, v: WrapperValue) -> bool {
    match kind {
        RustToFfiTypeConversion::NoConversion => v is Plain,
        RustToFfiTypeConversion::RefToPtr => v is Reference,
        RustToFfiTypeConversion::OptionRefToPtr => v is OptionalReference,
        RustToFfiTypeConversion::ValueToPtr => v is Aggregate,
        RustToFfiTypeConversion::CppBoxToPtr => v is OwnedHandle,
        RustToFfiTypeConversion::QFlagsToUInt => v is Bitflags,
    }
}

/// Marshalling in: what the boundary receives for a wrapper value. A
/// reference becomes its address, an absent optional reference a null
/// pointer, an aggregate the address of its slot, an owning handle its raw
/// pointer with ownership relinquished, and bitflags their integer.
pub open spec fn marshal_in(kind: RustToFfiTypeConversion, v: WrapperValue) -> BoundaryValue {
    match v {
        WrapperValue::Plain(x) => BoundaryValue::Plain(x),
        WrapperValue::Reference(a) => BoundaryValue::Pointer(Some(a)),
        WrapperValue::OptionalReference(o) => BoundaryValue::Pointer(o),
        WrapperValue::Aggregate(a) => BoundaryValue::Pointer(Some(a)),
        WrapperValue::OwnedHandle(a) => BoundaryValue::Pointer(Some(a)),
        WrapperValue::Bitflags(x) => BoundaryValue::Integer(x),
    }
}

/// Marshalling out: what the wrapper receives back for a boundary value, or
/// nothing when a null pointer reaches a conversion that owes a value: that
/// crossing fails at the call site.
pub open spec fn marshal_out(kind: RustToFfiTypeConversion, b: BoundaryValue) -> Option<
    WrapperValue,
> {
    match kind {
        RustToFfiTypeConversion::NoConversion => match b {
            BoundaryValue::Plain(x) => Some(WrapperValue::Plain(x)),
            _ => None,
        },
        RustToFfiTypeConversion::RefToPtr => match b {
            BoundaryValue::Pointer(Some(a)) => Some(WrapperValue::Reference(a)),
            _ => None,
        },
        RustToFfiTypeConversion::OptionRefToPtr => match b {
            BoundaryValue::Pointer(o) => Some(WrapperValue::OptionalReference(o)),
            _ => None,
        },
        RustToFfiTypeConversion::ValueToPtr => match b {
            BoundaryValue::Pointer(Some(a)) => Some(WrapperValue::Aggregate(a)),
            _ => None,
        },
        RustToFfiTypeConversion::CppBoxToPtr => match b {
            BoundaryValue::Pointer(Some(a)) => Some(WrapperValue::OwnedHandle(a)),
            _ => None,
        },
        RustToFfiTypeConversion::QFlagsToUInt => match b {
            BoundaryValue::Integer(x) => Some(WrapperValue::Bitflags(x)),
            _ => None,
        },
    }
}

/// Whether a wrapper value is present: every value but an absent optional
/// reference.
pub open spec fn is_present(v: WrapperValue) -> bool {
    !(v matches WrapperValue::OptionalReference(None))
}

/// Conversion totality: for every conversion kind, marshalling a fitting,
/// present wrapper value into the boundary and back returns exactly that
/// value; and even an absent optional reference survives the round trip.
pub proof fn lemma_conversion_total(kind: RustToFfiTypeConversion, v: WrapperValue)
    requires
        shape_fits(kind, v),
    ensures
        is_present(v) ==> marshal_out(kind, marshal_in(kind, v)) == Some(v),
        kind == RustToFfiTypeConversion::OptionRefToPtr ==> marshal_out(kind, marshal_in(kind, v))
            == Some(v),
{
}

} // verus!
