//! Codecs built from other codecs.

use vstd::prelude::*;
use std::marker::PhantomData;
use vstd::pervasive::unreached;
use vstd::std_specs::convert::{FromSpec, IntoSpec, TryFromSpec, TryIntoSpec};
use crate::model::{
    clone_keeps_model, eq_by_model, from_by_model, into_by_model, lemma_model_from,
    lemma_model_into, lemma_model_try_from, lemma_model_try_into, model_from, model_into,
    model_try_from, model_try_into, try_from_by_model, try_into_by_model,
};
use crate::error::BinError;
use crate::stream::{Decoded, Encoded, Sink, Source};
use crate::{ReadFn, WriteFn};

verus! {

/// The reader that [`bind`] gives.
pub struct BindReader<Rf, I: DeepView + PartialEq> {
    inner: Rf,
    expected: I,
}

/// The writer that [`bind`] gives.
pub struct BindWriter<Wf, I> {
    inner: Wf,
    value: I,
}

impl<Rf, I: DeepView + PartialEq> BindReader<Rf, I> {
    #[verifier::type_invariant]
    spec fn inv(self) -> bool {
        eq_by_model::<I>()
    }

    /// The reader of the value.
    pub closed spec fn inner(&self) -> Rf {
        self.inner
    }

    /// The model of the value that must be read.
    pub closed spec fn expected(&self) -> I::V {
        self.expected.deep_view()
    }
}

impl<Wf, I: DeepView> BindWriter<Wf, I> {
    /// The writer of the value.
    pub closed spec fn inner(&self) -> Wf {
        self.inner
    }

    /// The model of the value that is written.
    pub closed spec fn value(&self) -> I::V {
        self.value.deep_view()
    }
}

impl<Rf: ReadFn<I>, I: DeepView + PartialEq> ReadFn<()> for BindReader<Rf, I> {
    open spec fn spec_read(&self, input: Seq<u8>) -> Decoded<()> {
        let read = self.inner().spec_read(input);
        Decoded {
            result: match read.result {
                Ok(v) => if v == self.expected() {
                    Ok(())
                } else {
                    Err(BinError::CheckFail)
                },
                Err(e) => Err(e),
            },
            used: read.used,
        }
    }

    fn read(&self, r: &mut Source) -> (res: Result<(), BinError>) {
        proof {
            use_type_invariant(self);
        }
        match self.inner.read(r) {
            Ok(v) => if v == self.expected {
                Ok(())
            } else {
                Err(BinError::CheckFail)
            },
            Err(e) => Err(e),
        }
    }
}

impl<Wf: WriteFn<I>, I: DeepView> WriteFn<()> for BindWriter<Wf, I> {
    open spec fn accepts(&self, v: ()) -> bool {
        self.inner().accepts(self.value())
    }

    open spec fn spec_write(&self, v: ()) -> Encoded {
        self.inner().spec_write(self.value())
    }

    fn fits(&self, i: &()) -> (b: bool) {
        self.inner.fits(&self.value)
    }

    fn write(&self, w: &mut Sink, i: &()) -> (res: Result<(), BinError>) {
        self.inner.write(w, &self.value)
    }
}

/// A codec of no value, for a field that must hold `i`.
///
/// Reading reads a value with `f` and fails with [`BinError::CheckFail`]
/// unless it is `i`; writing writes `i` with `f`. The codec is built for a
/// type that is compared and cloned by its model.
pub fn bind<Rf, Wf, I>(f: (Rf, Wf), i: I) -> (c: (BindReader<Rf, I>, BindWriter<Wf, I>)) where
    Rf: ReadFn<I>,
    Wf: WriteFn<I>,
    I: DeepView + PartialEq + Clone,

    requires
        eq_by_model::<I>(),
        clone_keeps_model::<I>(),
    ensures
        c.0.inner() == f.0,
        c.0.expected() == i.deep_view(),
        c.1.inner() == f.1,
        c.1.value() == i.deep_view(),
{
    let expected = i.clone();
    assert(cloned(i, expected));
    (BindReader { inner: f.0, expected }, BindWriter { inner: f.1, value: i })
}

/// The reader that [`skip`] gives.
#[derive(Debug)]
pub struct SkipReader<Rf, I> {
    pub inner: Rf,
    pub types: PhantomData<I>,
}

/// The writer that [`skip`] gives.
#[derive(Debug)]
pub struct SkipWriter<Wf, I> {
    pub inner: Wf,
    pub value: I,
}

impl<Rf: ReadFn<I>, I: DeepView> ReadFn<()> for SkipReader<Rf, I> {
    open spec fn spec_read(&self, input: Seq<u8>) -> Decoded<()> {
        let read = self.inner.spec_read(input);
        Decoded {
            result: match read.result {
                Ok(_) => Ok(()),
                Err(e) => Err(e),
            },
            used: read.used,
        }
    }

    fn read(&self, r: &mut Source) -> (res: Result<(), BinError>) {
        match self.inner.read(r) {
            Ok(_) => Ok(()),
            Err(e) => Err(e),
        }
    }
}

impl<Wf: WriteFn<I>, I: DeepView> WriteFn<()> for SkipWriter<Wf, I> {
    open spec fn accepts(&self, v: ()) -> bool {
        self.inner.accepts(self.value.deep_view())
    }

    open spec fn spec_write(&self, v: ()) -> Encoded {
        self.inner.spec_write(self.value.deep_view())
    }

    fn fits(&self, i: &()) -> (b: bool) {
        self.inner.fits(&self.value)
    }

    fn write(&self, w: &mut Sink, i: &()) -> (res: Result<(), BinError>) {
        self.inner.write(w, &self.value)
    }
}

/// A codec of no value, for a field whose content does not matter.
///
/// Reading reads a value with `f` and drops it; writing writes `i` with
/// `f`.
pub fn skip<Rf, Wf, I>(f: (Rf, Wf), i: I) -> (c: (SkipReader<Rf, I>, SkipWriter<Wf, I>)) where
    Rf: ReadFn<I>,
    Wf: WriteFn<I>,
    I: DeepView + Clone,

    ensures
        c.0.inner == f.0,
        c.1.inner == f.1,
        c.1.value == i,
{
    (SkipReader { inner: f.0, types: PhantomData }, SkipWriter { inner: f.1, value: i })
}

/// A codec of a value that is there or not, as `present` says.
#[derive(Debug)]
pub struct Optional<C> {
    pub inner: C,
    pub present: bool,
}

impl<I: DeepView, C: ReadFn<I>> ReadFn<Option<I>> for Optional<C> {
    open spec fn spec_read(&self, input: Seq<u8>) -> Decoded<Option<I::V>> {
        if self.present {
            let read = self.inner.spec_read(input);
            Decoded {
                result: match read.result {
                    Ok(v) => Ok(Some(v)),
                    Err(e) => Err(e),
                },
                used: read.used,
            }
        } else {
            Decoded { result: Ok(None), used: 0 }
        }
    }

    fn read(&self, r: &mut Source) -> (res: Result<Option<I>, BinError>) {
        proof {
            use_type_invariant(&*r);
        }
        if self.present {
            match self.inner.read(r) {
                Ok(v) => Ok(Some(v)),
                Err(e) => Err(e),
            }
        } else {
            Ok(None)
        }
    }
}

impl<I: DeepView, C: WriteFn<I>> WriteFn<Option<I>> for Optional<C> {
    open spec fn accepts(&self, v: Option<I::V>) -> bool {
        match v {
            Some(x) => self.present && self.inner.accepts(x),
            None => !self.present,
        }
    }

    open spec fn spec_write(&self, v: Option<I::V>) -> Encoded {
        match v {
            Some(x) => self.inner.spec_write(x),
            None => Encoded { bytes: Seq::empty(), result: Ok(()) },
        }
    }

    fn fits(&self, i: &Option<I>) -> (b: bool) {
        match i {
            Some(x) => self.present && self.inner.fits(x),
            None => !self.present,
        }
    }

    fn write(&self, w: &mut Sink, i: &Option<I>) -> (res: Result<(), BinError>) {
        match i {
            Some(x) => {
                if self.present {
                    self.inner.write(w, x)
                } else {
                    unreached()
                }
            },
            None => {
                if self.present {
                    unreached()
                } else {
                    Ok(())
                }
            },
        }
    }
}

/// A codec of a value that is there exactly when `c` holds.
///
/// Reading reads a value with `f` if `c` holds, and nothing otherwise;
/// only a value that is there exactly when `c` holds may be written.
pub fn optional<Rf, Wf, I>(f: (Rf, Wf), c: bool) -> (codec: (Optional<Rf>, Optional<Wf>)) where
    Rf: ReadFn<I>,
    Wf: WriteFn<I>,
    I: DeepView,

    ensures
        codec.0.inner == f.0,
        codec.0.present == c,
        codec.1.inner == f.1,
        codec.1.present == c,
{
    (Optional { inner: f.0, present: c }, Optional { inner: f.1, present: c })
}

/// A codec of a truth value, kept in the stream as one of two values of
/// another type.
pub struct Boolean<C, I: DeepView + PartialEq> {
    inner: C,
    true_val: I,
    false_val: I,
}

impl<C, I: DeepView + PartialEq> Boolean<C, I> {
    #[verifier::type_invariant]
    spec fn inv(self) -> bool {
        eq_by_model::<I>()
    }

    /// The codec of the value in the stream.
    pub closed spec fn inner(&self) -> C {
        self.inner
    }

    /// The model of the value that stands for `true`.
    pub closed spec fn true_val(&self) -> I::V {
        self.true_val.deep_view()
    }

    /// The model of the value that stands for `false`.
    pub closed spec fn false_val(&self) -> I::V {
        self.false_val.deep_view()
    }
}

impl<C: ReadFn<I>, I: DeepView + PartialEq> ReadFn<bool> for Boolean<C, I> {
    open spec fn spec_read(&self, input: Seq<u8>) -> Decoded<bool> {
        let read = self.inner().spec_read(input);
        Decoded {
            result: match read.result {
                Ok(v) => if v == self.true_val() {
                    Ok(true)
                } else if v == self.false_val() {
                    Ok(false)
                } else {
                    Err(BinError::CheckFail)
                },
                Err(e) => Err(e),
            },
            used: read.used,
        }
    }

    fn read(&self, r: &mut Source) -> (res: Result<bool, BinError>) {
        proof {
            use_type_invariant(self);
        }
        match self.inner.read(r) {
            Ok(v) => if v == self.true_val {
                Ok(true)
            } else if v == self.false_val {
                Ok(false)
            } else {
                Err(BinError::CheckFail)
            },
            Err(e) => Err(e),
        }
    }
}

impl<C: WriteFn<I>, I: DeepView + PartialEq> WriteFn<bool> for Boolean<C, I> {
    open spec fn accepts(&self, v: bool) -> bool {
        self.inner().accepts(
            if v {
                self.true_val()
            } else {
                self.false_val()
            },
        )
    }

    open spec fn spec_write(&self, v: bool) -> Encoded {
        self.inner().spec_write(
            if v {
                self.true_val()
            } else {
                self.false_val()
            },
        )
    }

    fn fits(&self, i: &bool) -> (b: bool) {
        if *i {
            self.inner.fits(&self.true_val)
        } else {
            self.inner.fits(&self.false_val)
        }
    }

    fn write(&self, w: &mut Sink, i: &bool) -> (res: Result<(), BinError>) {
        if *i {
            self.inner.write(w, &self.true_val)
        } else {
            self.inner.write(w, &self.false_val)
        }
    }
}

/// A codec of a truth value that stands in the stream as `true_val` or as
/// `false_val`.
///
/// Reading reads a value with `f` and gives `true` for `true_val`, else
/// `false` for `false_val`, else fails with [`BinError::CheckFail`];
/// writing writes the one or the other with `f`. The codec is built for a
/// type that is compared and cloned by its model.
pub fn boolean<Rf, Wf, I>(f: (Rf, Wf), true_val: I, false_val: I) -> (c: (
    Boolean<Rf, I>,
    Boolean<Wf, I>,
)) where Rf: ReadFn<I>, Wf: WriteFn<I>, I: DeepView + PartialEq + Clone
    requires
        eq_by_model::<I>(),
        clone_keeps_model::<I>(),
    ensures
        c.0.inner() == f.0,
        c.0.true_val() == true_val.deep_view(),
        c.0.false_val() == false_val.deep_view(),
        c.1.inner() == f.1,
        c.1.true_val() == true_val.deep_view(),
        c.1.false_val() == false_val.deep_view(),
{
    let read_true = true_val.clone();
    let read_false = false_val.clone();
    assert(cloned(true_val, read_true));
    assert(cloned(false_val, read_false));
    (
        Boolean { inner: f.0, true_val: read_true, false_val: read_false },
        Boolean { inner: f.1, true_val, false_val },
    )
}

/// A codec of values of `I` that stand in the stream as values of `O`.
pub struct Cast<C, I: DeepView + Clone, O: DeepView + From<I> + Into<I>> {
    inner: C,
    types: PhantomData<(I, O)>,
}

impl<C, I: DeepView + Clone, O: DeepView + From<I> + Into<I>> Cast<C, I, O> {
    #[verifier::type_invariant]
    spec fn inv(self) -> bool {
        &&& clone_keeps_model::<I>()
        &&& from_by_model::<I, O>()
        &&& into_by_model::<O, I>()
    }

    /// The codec of the value in the stream.
    pub closed spec fn inner(&self) -> C {
        self.inner
    }
}

impl<C: ReadFn<O>, I: DeepView + Clone, O: DeepView + From<I> + Into<I>> ReadFn<I> for Cast<
    C,
    I,
    O,
> {
    open spec fn spec_read(&self, input: Seq<u8>) -> Decoded<I::V> {
        let read = self.inner().spec_read(input);
        Decoded {
            result: match read.result {
                Ok(v) => Ok(model_into::<O, I>(v)),
                Err(e) => Err(e),
            },
            used: read.used,
        }
    }

    fn read(&self, r: &mut Source) -> (res: Result<I, BinError>) {
        proof {
            use_type_invariant(self);
        }
        match self.inner.read(r) {
            Ok(o) => {
                proof {
                    lemma_model_into::<O, I>(o);
                }
                Ok(o.into())
            },
            Err(e) => Err(e),
        }
    }
}

impl<C: WriteFn<O>, I: DeepView + Clone, O: DeepView + From<I> + Into<I>> Cast<C, I, O> {
    /// The value of `O` that stands for `i`.
    fn lower(&self, i: &I) -> (o: O)
        ensures
            o.deep_view() == model_from::<I, O>(i.deep_view()),
    {
        proof {
            use_type_invariant(self);
        }
        let copy = i.clone();
        proof {
            assert(cloned(*i, copy));
            lemma_model_from::<I, O>(copy);
        }
        O::from(copy)
    }
}

impl<C: WriteFn<O>, I: DeepView + Clone, O: DeepView + From<I> + Into<I>> WriteFn<I> for Cast<
    C,
    I,
    O,
> {
    open spec fn accepts(&self, v: I::V) -> bool {
        self.inner().accepts(model_from::<I, O>(v))
    }

    open spec fn spec_write(&self, v: I::V) -> Encoded {
        self.inner().spec_write(model_from::<I, O>(v))
    }

    fn fits(&self, i: &I) -> (b: bool) {
        let o = self.lower(i);
        self.inner.fits(&o)
    }

    fn write(&self, w: &mut Sink, i: &I) -> (res: Result<(), BinError>) {
        let o = self.lower(i);
        self.inner.write(w, &o)
    }
}

/// A codec of values of `I` over a codec `f` of values of `O`.
///
/// Reading reads a value of `O` and converts it with `Into`; writing
/// converts the value with `From` and writes the result. The codec is built
/// for types that are cloned and converted by their models.
pub fn cast<Rf, Wf, I, O>(f: (Rf, Wf)) -> (c: (Cast<Rf, I, O>, Cast<Wf, I, O>)) where
    Rf: ReadFn<O>,
    Wf: WriteFn<O>,
    O: DeepView + From<I> + Into<I>,
    I: DeepView + Clone,

    requires
        clone_keeps_model::<I>(),
        from_by_model::<I, O>(),
        into_by_model::<O, I>(),
    ensures
        c.0.inner() == f.0,
        c.1.inner() == f.1,
{
    (Cast { inner: f.0, types: PhantomData }, Cast { inner: f.1, types: PhantomData })
}

/// A codec of values of `I` that stand in the stream as values of `O`,
/// where not every value of the one is a value of the other.
pub struct TryCast<C, I: DeepView + Clone, O: DeepView + TryFrom<I> + TryInto<I>> {
    inner: C,
    types: PhantomData<(I, O)>,
}

impl<C, I: DeepView + Clone, O: DeepView + TryFrom<I> + TryInto<I>> TryCast<C, I, O> {
    #[verifier::type_invariant]
    spec fn inv(self) -> bool {
        &&& clone_keeps_model::<I>()
        &&& try_from_by_model::<I, O>()
        &&& try_into_by_model::<O, I>()
    }

    /// The codec of the value in the stream.
    pub closed spec fn inner(&self) -> C {
        self.inner
    }
}

impl<C: ReadFn<O>, I: DeepView + Clone, O: DeepView + TryFrom<I> + TryInto<I>> ReadFn<
    I,
> for TryCast<C, I, O> {
    open spec fn spec_read(&self, input: Seq<u8>) -> Decoded<I::V> {
        let read = self.inner().spec_read(input);
        Decoded {
            result: match read.result {
                Ok(v) => match model_try_into::<O, I>(v) {
                    Some(i) => Ok(i),
                    None => Err(BinError::CastFail),
                },
                Err(e) => Err(e),
            },
            used: read.used,
        }
    }

    fn read(&self, r: &mut Source) -> (res: Result<I, BinError>) {
        proof {
            use_type_invariant(self);
        }
        match self.inner.read(r) {
            Ok(o) => {
                proof {
                    lemma_model_try_into::<O, I>(o);
                }
                match o.try_into() {
                    Ok(i) => Ok(i),
                    Err(_) => Err(BinError::CastFail),
                }
            },
            Err(e) => Err(e),
        }
    }
}

impl<C: WriteFn<O>, I: DeepView + Clone, O: DeepView + TryFrom<I> + TryInto<I>> TryCast<C, I, O> {
    /// The value of `O` that stands for `i`, if there is one.
    fn lower(&self, i: &I) -> (o: Option<O>)
        ensures
            o.deep_view() == model_try_from::<I, O>(i.deep_view()),
    {
        proof {
            use_type_invariant(self);
        }
        let copy = i.clone();
        proof {
            assert(cloned(*i, copy));
            lemma_model_try_from::<I, O>(copy);
        }
        match O::try_from(copy) {
            Ok(o) => Some(o),
            Err(_) => None,
        }
    }
}

impl<C: WriteFn<O>, I: DeepView + Clone, O: DeepView + TryFrom<I> + TryInto<I>> WriteFn<
    I,
> for TryCast<C, I, O> {
    open spec fn accepts(&self, v: I::V) -> bool {
        match model_try_from::<I, O>(v) {
            Some(o) => self.inner().accepts(o),
            None => true,
        }
    }

    open spec fn spec_write(&self, v: I::V) -> Encoded {
        match model_try_from::<I, O>(v) {
            Some(o) => self.inner().spec_write(o),
            None => Encoded { bytes: Seq::empty(), result: Err(BinError::CastFail) },
        }
    }

    fn fits(&self, i: &I) -> (b: bool) {
        match self.lower(i) {
            Some(o) => self.inner.fits(&o),
            None => true,
        }
    }

    fn write(&self, w: &mut Sink, i: &I) -> (res: Result<(), BinError>) {
        match self.lower(i) {
            Some(o) => self.inner.write(w, &o),
            None => {
                Err(BinError::CastFail)
            },
        }
    }
}

/// A codec of values of `I` over a codec `f` of values of `O`, where a
/// conversion may fail.
///
/// Reading reads a value of `O` and converts it with `TryInto`; writing
/// converts the value with `TryFrom` and writes the result. Either fails
/// with [`BinError::CastFail`] where the conversion does. The codec is built
/// for types that are cloned and converted by their models.
pub fn try_cast<Rf, Wf, I, O>(f: (Rf, Wf)) -> (c: (TryCast<Rf, I, O>, TryCast<Wf, I, O>)) where
    Rf: ReadFn<O>,
    Wf: WriteFn<O>,
    O: DeepView + TryFrom<I> + TryInto<I>,
    I: DeepView + Clone,

    requires
        clone_keeps_model::<I>(),
        try_from_by_model::<I, O>(),
        try_into_by_model::<O, I>(),
    ensures
        c.0.inner() == f.0,
        c.1.inner() == f.1,
{
    (TryCast { inner: f.0, types: PhantomData }, TryCast { inner: f.1, types: PhantomData })
}

/// What reading `n` values in a row with `inner` gives: the values in the
/// order read, or the first error, with the bytes taken up to there.
pub open spec fn read_count<I: DeepView, C: ReadFn<I>>(inner: C, n: nat, input: Seq<u8>) -> Decoded<
    Seq<I::V>,
>
    decreases n,
{
    if n == 0 {
        Decoded { result: Ok(Seq::empty()), used: 0 }
    } else {
        let front = read_count(inner, (n - 1) as nat, input);
        match front.result {
            Err(_) => front,
            Ok(values) => {
                let last = inner.spec_read(input.skip(front.used as int));
                Decoded {
                    result: match last.result {
                        Ok(v) => Ok(values.push(v)),
                        Err(e) => Err(e),
                    },
                    used: front.used + last.used,
                }
            },
        }
    }
}

/// What writing the values in a row with `inner` gives: the bytes of each
/// in turn, up to and including those of the first that fails.
pub open spec fn write_each<I: DeepView, C: WriteFn<I>>(inner: C, values: Seq<I::V>) -> Encoded
    decreases values.len(),
{
    if values.len() == 0 {
        Encoded { bytes: Seq::empty(), result: Ok(()) }
    } else {
        let front = write_each(inner, values.drop_last());
        match front.result {
            Err(_) => front,
            Ok(_) => {
                let last = inner.spec_write(values.last());
                Encoded { bytes: front.bytes + last.bytes, result: last.result }
            },
        }
    }
}

/// After a first error, reading more values changes nothing.
pub proof fn lemma_read_count_stops<I: DeepView, C: ReadFn<I>>(
    inner: C,
    k: nat,
    n: nat,
    input: Seq<u8>,
)
    requires
        k <= n,
        read_count(inner, k, input).result is Err,
    ensures
        read_count(inner, n, input) == read_count(inner, k, input),
    decreases n,
{
    if k < n {
        lemma_read_count_stops(inner, k, (n - 1) as nat, input);
    }
}

/// After a first error, writing more values changes nothing.
pub proof fn lemma_write_each_stops<I: DeepView, C: WriteFn<I>>(
    inner: C,
    values: Seq<I::V>,
    k: int,
)
    requires
        0 <= k <= values.len(),
        write_each(inner, values.take(k)).result is Err,
    ensures
        write_each(inner, values) == write_each(inner, values.take(k)),
    decreases values.len(),
{
    if k < values.len() {
        assert(values.drop_last().take(k) =~= values.take(k));
        lemma_write_each_stops(inner, values.drop_last(), k);
    } else {
        assert(values.take(k) =~= values);
    }
}

/// Every one of the values that is written fits the codec `inner`: those
/// up to and including the first whose write fails.
pub open spec fn each_fits<I: DeepView, C: WriteFn<I>>(inner: C, values: Seq<I::V>) -> bool {
    forall|j: int|
        0 <= j < values.len() && write_each(inner, values.take(j)).result is Ok ==> inner.accepts(
            #[trigger] values[j],
        )
}

/// Reads `n` values in a row with `inner`, up to the first that fails.
pub fn read_values<I: DeepView, C: ReadFn<I>>(inner: &C, n: u64, r: &mut Source) -> (res: Result<
    Vec<I>,
    BinError,
>)
    ensures
        final(r).bytes() == old(r).bytes(),
        final(r).position() == old(r).position() + read_count(
            *inner,
            n as nat,
            old(r).remaining(),
        ).used,
        final(r).position() <= final(r).bytes().len(),
        crate::outcome(res) == read_count(*inner, n as nat, old(r).remaining()).result,
{
    proof {
        use_type_invariant(&*r);
    }
    let ghost input = r.remaining();
    let mut values: Vec<I> = Vec::new();
    let mut k: u64 = 0;
    assert(values.deep_view() =~= Seq::<I::V>::empty());
    while k < n
        invariant
            input == old(r).remaining(),
            k <= n,
            r.bytes() == old(r).bytes(),
            old(r).position() <= r.position() <= r.bytes().len(),
            read_count(*inner, k as nat, input) == (Decoded {
                result: Ok::<Seq<I::V>, BinError>(values.deep_view()),
                used: (r.position() - old(r).position()) as nat,
            }),
        decreases n - k,
    {
        let ghost before = values.deep_view();
        assert(r.remaining() =~= input.skip(r.position() - old(r).position()));
        match inner.read(r) {
            Ok(v) => {
                values.push(v);
                assert(values.deep_view() =~= before.push(v.deep_view()));
            },
            Err(e) => {
                proof {
                    lemma_read_count_stops(*inner, (k + 1) as nat, n as nat, input);
                }
                return Err(e);
            },
        }
        k = k + 1;
    }
    Ok(values)
}

/// Tells whether every one of the values that would be written fits the
/// codec `inner`.
pub fn values_fit<I: DeepView, C: WriteFn<I>>(inner: &C, values: &Vec<I>) -> (b: bool)
    ensures
        b == each_fits(*inner, values.deep_view()),
{
    let ghost models = values.deep_view();
    let mut j: usize = 0;
    while j < values.len()
        invariant
            models == values.deep_view(),
            j <= values@.len(),
            write_each(*inner, models.take(j as int)).result is Ok,
            forall|m: int| 0 <= m < j ==> inner.accepts(#[trigger] models[m]),
        decreases values@.len() - j,
    {
        assert(models.take(j + 1).drop_last() =~= models.take(j as int));
        assert(models.take(j + 1).last() == models[j as int]);
        if !inner.fits(&values[j]) {
            return false;
        }
        let mut trial = Sink::new();
        if inner.write(&mut trial, &values[j]).is_err() {
            proof {
                assert forall|m: int|
                    0 <= m < models.len() && write_each(*inner, models.take(m)).result
                        is Ok implies inner.accepts(#[trigger] models[m]) by {
                    if m > j {
                        lemma_write_each_stops(*inner, models.take(m), j + 1);
                    }
                }
            }
            return true;
        }
        j = j + 1;
    }
    true
}

/// Writes the values in a row with `inner`, up to the first that fails.
pub fn write_values<I: DeepView, C: WriteFn<I>>(inner: &C, w: &mut Sink, values: &Vec<I>) -> (res:
    Result<(), BinError>)
    requires
        each_fits(*inner, values.deep_view()),
    ensures
        final(w)@ == old(w)@ + write_each(*inner, values.deep_view()).bytes,
        res == write_each(*inner, values.deep_view()).result,
{
    let ghost models = values.deep_view();
    let mut j: usize = 0;
    while j < values.len()
        invariant
            models == values.deep_view(),
            j <= values@.len(),
            each_fits(*inner, models),
            write_each(*inner, models.take(j as int)).result is Ok,
            w@ == old(w)@ + write_each(*inner, models.take(j as int)).bytes,
        decreases values@.len() - j,
    {
        assert(models.take(j + 1).drop_last() =~= models.take(j as int));
        assert(inner.accepts(models[j as int]));
        let res = inner.write(w, &values[j]);
        if let Err(e) = res {
            proof {
                lemma_write_each_stops(*inner, models, j + 1);
            }
            return Err(e);
        }
        j = j + 1;
    }
    assert(models.take(j as int) =~= models);
    assert(write_each(*inner, models).result->Ok_0 == ());
    Ok(())
}

/// A codec of `count` values in a row, each read and written with `inner`.
#[derive(Debug)]
pub struct Count<C> {
    pub inner: C,
    pub count: usize,
}

impl<I: DeepView, C: ReadFn<I>> ReadFn<Vec<I>> for Count<C> {
    open spec fn spec_read(&self, input: Seq<u8>) -> Decoded<Seq<I::V>> {
        read_count(self.inner, self.count as nat, input)
    }

    fn read(&self, r: &mut Source) -> (res: Result<Vec<I>, BinError>) {
        read_values(&self.inner, self.count as u64, r)
    }
}

impl<I: DeepView, C: WriteFn<I>> WriteFn<Vec<I>> for Count<C> {
    open spec fn accepts(&self, v: Seq<I::V>) -> bool {
        v.len() == self.count && each_fits(self.inner, v)
    }

    open spec fn spec_write(&self, v: Seq<I::V>) -> Encoded {
        write_each(self.inner, v)
    }

    fn fits(&self, i: &Vec<I>) -> (b: bool) {
        i.len() == self.count && values_fit(&self.inner, i)
    }

    fn write(&self, w: &mut Sink, i: &Vec<I>) -> (res: Result<(), BinError>) {
        if i.len() == self.count {
            write_values(&self.inner, w, i)
        } else {
            unreached()
        }
    }
}

/// A codec of `c` values in a row, each read and written with `f`.
///
/// Reading gives the values in the order read; only a sequence of `c`
/// values may be written.
pub fn count<Rf, Wf, I>(f: (Rf, Wf), c: usize) -> (codec: (Count<Rf>, Count<Wf>)) where
    Rf: ReadFn<I>,
    Wf: WriteFn<I>,
    I: DeepView,

    ensures
        codec.0.inner == f.0,
        codec.0.count == c,
        codec.1.inner == f.1,
        codec.1.count == c,
{
    (Count { inner: f.0, count: c }, Count { inner: f.1, count: c })
}

} // verus!
