//! What the codecs ask of the types of the values that they carry.
//!
//! A codec is described by the models of its values, their `deep_view`. A
//! codec that compares, clones or converts values does so with the traits
//! of std, and its description holds for the types on which these traits
//! go by the model: the predicates of this module. A codec that needs one
//! asks for it when it is built.

use vstd::prelude::*;
use vstd::std_specs::convert::{FromSpec, IntoSpec, TryFromSpec, TryIntoSpec};

verus! {

/// `==` on `I` decides whether two values have the same model.
pub open spec fn eq_by_model<I: DeepView + PartialEq>() -> bool {
    forall|a: I, b: I, same: bool| #[trigger]
        call_ensures(I::eq, (&a, &b), same) ==> same == (a.deep_view() == b.deep_view())
}

/// A clone of a value of `I` has the model of the value.
pub open spec fn clone_keeps_model<I: DeepView + Clone>() -> bool {
    forall|a: I, b: I| #[trigger] cloned(a, b) ==> a.deep_view() == b.deep_view()
}

/// `From<T>` for `U` is specified, and gives values of one model for values
/// of one model.
pub open spec fn from_by_model<T: DeepView, U: DeepView + From<T>>() -> bool {
    &&& U::obeys_from_spec()
    &&& forall|a: T, b: T|
        #![trigger U::from_spec(a), U::from_spec(b)]
        a.deep_view() == b.deep_view() ==> U::from_spec(a).deep_view() == U::from_spec(
            b,
        ).deep_view()
}

/// `Into<U>` for `T` is specified, and gives values of one model for values
/// of one model.
pub open spec fn into_by_model<T: DeepView + Into<U>, U: DeepView>() -> bool {
    &&& T::obeys_into_spec()
    &&& forall|a: T, b: T|
        #![trigger a.into_spec(), b.into_spec()]
        a.deep_view() == b.deep_view() ==> a.into_spec().deep_view() == b.into_spec().deep_view()
}

/// The model of the value that `From<T>` for `U` makes of a value of model
/// `v`.
pub open spec fn model_from<T: DeepView, U: DeepView + From<T>>(v: T::V) -> U::V {
    U::from_spec(choose|a: T| a.deep_view() == v).deep_view()
}

/// The model of the value that `Into<U>` for `T` makes of a value of model
/// `v`.
pub open spec fn model_into<T: DeepView + Into<U>, U: DeepView>(v: T::V) -> U::V {
    (choose|a: T| a.deep_view() == v).into_spec().deep_view()
}

/// The model of the value of a conversion that succeeded; `None` for one
/// that failed.
pub open spec fn converted<T: DeepView, E>(r: Result<T, E>) -> Option<T::V> {
    match r {
        Ok(v) => Some(v.deep_view()),
        Err(_) => None,
    }
}

/// `TryFrom<T>` for `U` is specified, and decides alike, with results of
/// one model, for values of one model.
pub open spec fn try_from_by_model<T: DeepView, U: DeepView + TryFrom<T>>() -> bool {
    &&& U::obeys_try_from_spec()
    &&& forall|a: T, b: T|
        #![trigger U::try_from_spec(a), U::try_from_spec(b)]
        a.deep_view() == b.deep_view() ==> converted(U::try_from_spec(a)) == converted(
            U::try_from_spec(b),
        )
}

/// `TryInto<U>` for `T` is specified, and decides alike, with results of
/// one model, for values of one model.
pub open spec fn try_into_by_model<T: DeepView + TryInto<U>, U: DeepView>() -> bool {
    &&& T::obeys_try_into_spec()
    &&& forall|a: T, b: T|
        #![trigger a.try_into_spec(), b.try_into_spec()]
        a.deep_view() == b.deep_view() ==> converted(a.try_into_spec()) == converted(
            b.try_into_spec(),
        )
}

/// The model of the value that `TryFrom<T>` for `U` makes of a value of
/// model `v`; `None` where it refuses the value.
pub open spec fn model_try_from<T: DeepView, U: DeepView + TryFrom<T>>(v: T::V) -> Option<U::V> {
    converted(U::try_from_spec(choose|a: T| a.deep_view() == v))
}

/// The model of the value that `TryInto<U>` for `T` makes of a value of
/// model `v`; `None` where it refuses the value.
pub open spec fn model_try_into<T: DeepView + TryInto<U>, U: DeepView>(v: T::V) -> Option<U::V> {
    converted((choose|a: T| a.deep_view() == v).try_into_spec())
}

/// The model that `From` gives is that of the value that it makes.
pub proof fn lemma_model_from<T: DeepView, U: DeepView + From<T>>(a: T)
    requires
        from_by_model::<T, U>(),
    ensures
        model_from::<T, U>(a.deep_view()) == U::from_spec(a).deep_view(),
{
}

/// The model that `Into` gives is that of the value that it makes.
pub proof fn lemma_model_into<T: DeepView + Into<U>, U: DeepView>(a: T)
    requires
        into_by_model::<T, U>(),
    ensures
        model_into::<T, U>(a.deep_view()) == a.into_spec().deep_view(),
{
}

/// The model that `TryFrom` gives is that of the value that it makes, if
/// it makes one.
pub proof fn lemma_model_try_from<T: DeepView, U: DeepView + TryFrom<T>>(a: T)
    requires
        try_from_by_model::<T, U>(),
    ensures
        model_try_from::<T, U>(a.deep_view()) == converted(U::try_from_spec(a)),
{
}

/// The model that `TryInto` gives is that of the value that it makes, if
/// it makes one.
pub proof fn lemma_model_try_into<T: DeepView + TryInto<U>, U: DeepView>(a: T)
    requires
        try_into_by_model::<T, U>(),
    ensures
        model_try_into::<T, U>(a.deep_view()) == converted(a.try_into_spec()),
{
}

/// The integers, `bool` and `String` are compared and cloned by their
/// models.
pub proof fn std_types_go_by_model()
    ensures
        eq_by_model::<u8>() && clone_keeps_model::<u8>(),
        eq_by_model::<u16>() && clone_keeps_model::<u16>(),
        eq_by_model::<u32>() && clone_keeps_model::<u32>(),
        eq_by_model::<u64>() && clone_keeps_model::<u64>(),
        eq_by_model::<usize>() && clone_keeps_model::<usize>(),
        eq_by_model::<i8>() && clone_keeps_model::<i8>(),
        eq_by_model::<i16>() && clone_keeps_model::<i16>(),
        eq_by_model::<i32>() && clone_keeps_model::<i32>(),
        eq_by_model::<i64>() && clone_keeps_model::<i64>(),
        eq_by_model::<bool>() && clone_keeps_model::<bool>(),
        eq_by_model::<String>() && clone_keeps_model::<String>(),
{
}

/// `usize` is converted to and from `u32` and `u64` by the model.
pub proof fn usize_converts_by_model()
    ensures
        try_from_by_model::<usize, u32>() && try_into_by_model::<u32, usize>(),
        try_from_by_model::<usize, u64>() && try_into_by_model::<u64, usize>(),
        try_from_by_model::<u32, usize>() && try_into_by_model::<usize, u32>(),
        try_from_by_model::<u64, usize>() && try_into_by_model::<usize, u64>(),
{
}

} // verus!
