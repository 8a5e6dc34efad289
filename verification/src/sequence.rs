//! Codecs of several fields in a row.
//!
//! The fields of a record are read and written in one order: the order in
//! which their codecs are put together here. The reader and the writer are
//! made of the same description, so the two cannot drift apart.
//!
//! - A field that holds a value is joined to the fields behind it with
//!   [`pair`].
//! - A field that holds none (a magic number, padding), as
//!   [`crate::utils::bind`] and [`crate::utils::skip`] give it, is put
//!   before a field with [`prefixed`] and behind one with [`suffixed`].
//! - A field that decides the layout of fields behind it (a length, a flag)
//!   is joined to them with [`bound`]. The fields behind it then depend on a
//!   key: [`count_by`] and [`optional_by`] ask the key, [`keyless`] ignores
//!   it, and [`pair`] hands it to both its fields.
//! - A record type of its own is had with [`crate::utils::cast`] over the
//!   tuple that these codecs carry. A field that the record does not keep,
//!   such as a length that it can count, is dropped and made again by the
//!   conversions between the record and the tuple.
//!
//! A layout beyond these is a type of its own that implements
//! [`crate::ReadFn`] and [`crate::WriteFn`].

use vstd::prelude::*;
use crate::error::BinError;
use crate::stream::{Decoded, Encoded, Sink, Source};
use crate::utils::{each_fits, read_count, read_values, values_fit, write_each, write_values};
use crate::{outcome, ReadFn, WriteFn};
use vstd::pervasive::unreached;

verus! {

/// What reading one value and then another gives: both, or the first error.
pub open spec fn read_both<I: DeepView, J: DeepView, A: ReadFn<I>, B: ReadFn<J>>(
    first: A,
    second: B,
    input: Seq<u8>,
) -> Decoded<(I::V, J::V)> {
    let head = first.spec_read(input);
    match head.result {
        Err(e) => Decoded { result: Err(e), used: head.used },
        Ok(x) => {
            let tail = second.spec_read(input.skip(head.used as int));
            Decoded {
                result: match tail.result {
                    Ok(y) => Ok((x, y)),
                    Err(e) => Err(e),
                },
                used: head.used + tail.used,
            }
        },
    }
}

/// What writing one value and then another gives: the bytes of the first,
/// then those of the second unless the first failed.
pub open spec fn write_both<I: DeepView, J: DeepView, A: WriteFn<I>, B: WriteFn<J>>(
    first: A,
    second: B,
    x: I::V,
    y: J::V,
) -> Encoded {
    let head = first.spec_write(x);
    match head.result {
        Err(_) => head,
        Ok(_) => {
            let tail = second.spec_write(y);
            Encoded { bytes: head.bytes + tail.bytes, result: tail.result }
        },
    }
}

/// Whether two values fit the codecs that write them one after the other:
/// the first fits, and so does the second unless the write of the first
/// fails, after which the second is not written.
pub open spec fn fit_both<I: DeepView, J: DeepView, A: WriteFn<I>, B: WriteFn<J>>(
    first: A,
    second: B,
    x: I::V,
    y: J::V,
) -> bool {
    first.accepts(x) && (first.spec_write(x).result is Ok ==> second.accepts(y))
}

/// A codec of two fields in a row.
#[derive(Debug)]
pub struct Pair<A, B> {
    pub first: A,
    pub second: B,
}

impl<I: DeepView, J: DeepView, A: ReadFn<I>, B: ReadFn<J>> ReadFn<(I, J)> for Pair<A, B> {
    open spec fn spec_read(&self, input: Seq<u8>) -> Decoded<(I::V, J::V)> {
        read_both(self.first, self.second, input)
    }

    fn read(&self, r: &mut Source) -> (res: Result<(I, J), BinError>) {
        proof {
            use_type_invariant(&*r);
        }
        let ghost input = r.remaining();
        let x = match self.first.read(r) {
            Ok(x) => x,
            Err(e) => {
                return Err(e);
            },
        };
        assert(r.remaining() =~= input.skip(r.position() - old(r).position()));
        match self.second.read(r) {
            Ok(y) => Ok((x, y)),
            Err(e) => Err(e),
        }
    }
}

impl<I: DeepView, J: DeepView, A: WriteFn<I>, B: WriteFn<J>> WriteFn<(I, J)> for Pair<A, B> {
    open spec fn accepts(&self, v: (I::V, J::V)) -> bool {
        fit_both(self.first, self.second, v.0, v.1)
    }

    open spec fn spec_write(&self, v: (I::V, J::V)) -> Encoded {
        write_both(self.first, self.second, v.0, v.1)
    }

    fn fits(&self, i: &(I, J)) -> (b: bool) {
        if !self.first.fits(&i.0) {
            return false;
        }
        let mut trial = Sink::new();
        self.first.write(&mut trial, &i.0).is_err() || self.second.fits(&i.1)
    }

    fn write(&self, w: &mut Sink, i: &(I, J)) -> (res: Result<(), BinError>) {
        match self.first.write(w, &i.0) {
            Ok(_) => {
                let res = self.second.write(w, &i.1);
                res
            },
            Err(e) => Err(e),
        }
    }
}

/// The codec of the field of `a` followed by the field of `b`.
///
/// Both halves take the fields in this order. Where `a` and `b` depend on
/// a key, so does their pair.
pub fn pair<Ra, Wa, Rb, Wb>(a: (Ra, Wa), b: (Rb, Wb)) -> (c: (Pair<Ra, Rb>, Pair<Wa, Wb>))
    ensures
        c.0.first == a.0,
        c.0.second == b.0,
        c.1.first == a.1,
        c.1.second == b.1,
{
    (Pair { first: a.0, second: b.0 }, Pair { first: a.1, second: b.1 })
}

/// A codec of a field that follows a field of no value.
#[derive(Debug)]
pub struct Prefixed<A, B> {
    pub prefix: A,
    pub field: B,
}

impl<I: DeepView, A: ReadFn<()>, B: ReadFn<I>> ReadFn<I> for Prefixed<A, B> {
    open spec fn spec_read(&self, input: Seq<u8>) -> Decoded<I::V> {
        let both = read_both::<(), I, A, B>(self.prefix, self.field, input);
        Decoded {
            result: match both.result {
                Ok(fields) => Ok(fields.1),
                Err(e) => Err(e),
            },
            used: both.used,
        }
    }

    fn read(&self, r: &mut Source) -> (res: Result<I, BinError>) {
        proof {
            use_type_invariant(&*r);
        }
        let ghost input = r.remaining();
        if let Err(e) = self.prefix.read(r) {
            return Err(e);
        }
        assert(r.remaining() =~= input.skip(r.position() - old(r).position()));
        self.field.read(r)
    }
}

impl<I: DeepView, A: WriteFn<()>, B: WriteFn<I>> WriteFn<I> for Prefixed<A, B> {
    open spec fn accepts(&self, v: I::V) -> bool {
        fit_both::<(), I, A, B>(self.prefix, self.field, (), v)
    }

    open spec fn spec_write(&self, v: I::V) -> Encoded {
        write_both::<(), I, A, B>(self.prefix, self.field, (), v)
    }

    fn fits(&self, i: &I) -> (b: bool) {
        if !self.prefix.fits(&()) {
            return false;
        }
        let mut trial = Sink::new();
        self.prefix.write(&mut trial, &()).is_err() || self.field.fits(i)
    }

    fn write(&self, w: &mut Sink, i: &I) -> (res: Result<(), BinError>) {
        match self.prefix.write(w, &()) {
            Ok(_) => {
                let res = self.field.write(w, i);
                res
            },
            Err(e) => Err(e),
        }
    }
}

/// A codec of a field that a field of no value follows.
#[derive(Debug)]
pub struct Suffixed<A, B> {
    pub field: A,
    pub suffix: B,
}

impl<I: DeepView, A: ReadFn<I>, B: ReadFn<()>> ReadFn<I> for Suffixed<A, B> {
    open spec fn spec_read(&self, input: Seq<u8>) -> Decoded<I::V> {
        let both = read_both::<I, (), A, B>(self.field, self.suffix, input);
        Decoded {
            result: match both.result {
                Ok(fields) => Ok(fields.0),
                Err(e) => Err(e),
            },
            used: both.used,
        }
    }

    fn read(&self, r: &mut Source) -> (res: Result<I, BinError>) {
        proof {
            use_type_invariant(&*r);
        }
        let ghost input = r.remaining();
        let v = match self.field.read(r) {
            Ok(v) => v,
            Err(e) => {
                return Err(e);
            },
        };
        assert(r.remaining() =~= input.skip(r.position() - old(r).position()));
        match self.suffix.read(r) {
            Ok(_) => Ok(v),
            Err(e) => Err(e),
        }
    }
}

impl<I: DeepView, A: WriteFn<I>, B: WriteFn<()>> WriteFn<I> for Suffixed<A, B> {
    open spec fn accepts(&self, v: I::V) -> bool {
        fit_both::<I, (), A, B>(self.field, self.suffix, v, ())
    }

    open spec fn spec_write(&self, v: I::V) -> Encoded {
        write_both::<I, (), A, B>(self.field, self.suffix, v, ())
    }

    fn fits(&self, i: &I) -> (b: bool) {
        if !self.field.fits(i) {
            return false;
        }
        let mut trial = Sink::new();
        self.field.write(&mut trial, i).is_err() || self.suffix.fits(&())
    }

    fn write(&self, w: &mut Sink, i: &I) -> (res: Result<(), BinError>) {
        match self.field.write(w, i) {
            Ok(_) => {
                let res = self.suffix.write(w, &());
                res
            },
            Err(e) => Err(e),
        }
    }
}

/// The codec of the field of `b` where a field of no value, read and
/// written with `a`, stands before it.
pub fn prefixed<Ra, Wa, Rb, Wb, I>(a: (Ra, Wa), b: (Rb, Wb)) -> (c: (
    Prefixed<Ra, Rb>,
    Prefixed<Wa, Wb>,
)) where Ra: ReadFn<()>, Wa: WriteFn<()>, Rb: ReadFn<I>, Wb: WriteFn<I>, I: DeepView
    ensures
        c.0.prefix == a.0,
        c.0.field == b.0,
        c.1.prefix == a.1,
        c.1.field == b.1,
{
    (Prefixed { prefix: a.0, field: b.0 }, Prefixed { prefix: a.1, field: b.1 })
}

/// The codec of the field of `a` where a field of no value, read and
/// written with `b`, stands behind it.
pub fn suffixed<Ra, Wa, Rb, Wb, I>(a: (Ra, Wa), b: (Rb, Wb)) -> (c: (
    Suffixed<Ra, Rb>,
    Suffixed<Wa, Wb>,
)) where Ra: ReadFn<I>, Wa: WriteFn<I>, Rb: ReadFn<()>, Wb: WriteFn<()>, I: DeepView
    ensures
        c.0.field == a.0,
        c.0.suffix == b.0,
        c.1.field == a.1,
        c.1.suffix == b.1,
{
    (Suffixed { field: a.0, suffix: b.0 }, Suffixed { field: a.1, suffix: b.1 })
}

/// The reading half of a codec whose layout depends on a key: a reader for
/// each value of `K`.
pub trait ReadWith<K: DeepView, I: DeepView> {
    /// What reading from `input` gives under the key.
    spec fn spec_read_with(&self, key: K::V, input: Seq<u8>) -> Decoded<I::V>;

    /// Reads one value from `r`, as [`Self::spec_read_with`] says of the key
    /// and of the bytes that `r` has left.
    fn read_with(&self, key: &K, r: &mut Source) -> (res: Result<I, BinError>)
        ensures
            final(r).bytes() == old(r).bytes(),
            final(r).position() == old(r).position() + self.spec_read_with(
                key.deep_view(),
                old(r).remaining(),
            ).used,
            final(r).position() <= final(r).bytes().len(),
            outcome(res) == self.spec_read_with(key.deep_view(), old(r).remaining()).result,
    ;
}

/// The writing half of a codec whose layout depends on a key: a writer for
/// each value of `K`.
pub trait WriteWith<K: DeepView, I: DeepView> {
    /// Whether the value fits the format under the key.
    spec fn accepts_with(&self, key: K::V, v: I::V) -> bool;

    /// What writing `v` gives under the key.
    spec fn spec_write_with(&self, key: K::V, v: I::V) -> Encoded;

    /// Tells whether `i` fits the format under the key.
    fn fits_with(&self, key: &K, i: &I) -> (b: bool)
        ensures
            b == self.accepts_with(key.deep_view(), i.deep_view()),
    ;

    /// Writes `i` to `w`, as [`Self::spec_write_with`] says.
    fn write_with(&self, key: &K, w: &mut Sink, i: &I) -> (res: Result<(), BinError>)
        requires
            self.accepts_with(key.deep_view(), i.deep_view()),
        ensures
            final(w)@ == old(w)@ + self.spec_write_with(key.deep_view(), i.deep_view()).bytes,
            res == self.spec_write_with(key.deep_view(), i.deep_view()).result,
    ;
}

/// An unsigned number that can say how many values follow it.
pub trait Length: DeepView {
    /// The number of values that a key of this model stands for.
    spec fn length(key: Self::V) -> nat;

    /// The number of values that the key stands for.
    fn to_u64(&self) -> (n: u64)
        ensures
            n == Self::length(self.deep_view()),
    ;
}

impl Length for u8 {
    open spec fn length(key: u8) -> nat {
        key as nat
    }

    fn to_u64(&self) -> (n: u64) {
        *self as u64
    }
}

impl Length for u16 {
    open spec fn length(key: u16) -> nat {
        key as nat
    }

    fn to_u64(&self) -> (n: u64) {
        *self as u64
    }
}

impl Length for u32 {
    open spec fn length(key: u32) -> nat {
        key as nat
    }

    fn to_u64(&self) -> (n: u64) {
        *self as u64
    }
}

impl Length for u64 {
    open spec fn length(key: u64) -> nat {
        key as nat
    }

    fn to_u64(&self) -> (n: u64) {
        *self
    }
}

impl Length for usize {
    open spec fn length(key: usize) -> nat {
        key as nat
    }

    fn to_u64(&self) -> (n: u64) {
        *self as u64
    }
}

/// A codec of as many values in a row as the key says.
#[derive(Debug)]
pub struct CountBy<C> {
    pub inner: C,
}

impl<K: Length, I: DeepView, C: ReadFn<I>> ReadWith<K, Vec<I>> for CountBy<C> {
    open spec fn spec_read_with(&self, key: K::V, input: Seq<u8>) -> Decoded<Seq<I::V>> {
        read_count(self.inner, K::length(key), input)
    }

    fn read_with(&self, key: &K, r: &mut Source) -> (res: Result<Vec<I>, BinError>) {
        read_values(&self.inner, key.to_u64(), r)
    }
}

impl<K: Length, I: DeepView, C: WriteFn<I>> WriteWith<K, Vec<I>> for CountBy<C> {
    open spec fn accepts_with(&self, key: K::V, v: Seq<I::V>) -> bool {
        v.len() == K::length(key) && each_fits(self.inner, v)
    }

    open spec fn spec_write_with(&self, key: K::V, v: Seq<I::V>) -> Encoded {
        write_each(self.inner, v)
    }

    fn fits_with(&self, key: &K, i: &Vec<I>) -> (b: bool) {
        i.len() as u64 == key.to_u64() && values_fit(&self.inner, i)
    }

    fn write_with(&self, key: &K, w: &mut Sink, i: &Vec<I>) -> (res: Result<(), BinError>) {
        if i.len() as u64 == key.to_u64() {
            write_values(&self.inner, w, i)
        } else {
            unreached()
        }
    }
}

/// A codec of a value that is there exactly when the key is `true`.
#[derive(Debug)]
pub struct OptionalBy<C> {
    pub inner: C,
}

impl<I: DeepView, C: ReadFn<I>> ReadWith<bool, Option<I>> for OptionalBy<C> {
    open spec fn spec_read_with(&self, key: bool, input: Seq<u8>) -> Decoded<Option<I::V>> {
        if key {
            let read = self.inner.spec_read(input);
            Decoded {
                result: match read.result {
                    Ok(v) => Ok(Some(v)),
                    Err(e) => Err(e),
                },
                used: read.used,
            }
        } else {
            Decoded { result: Ok(None), used: 0 }
        }
    }

    fn read_with(&self, key: &bool, r: &mut Source) -> (res: Result<Option<I>, BinError>) {
        proof {
            use_type_invariant(&*r);
        }
        if *key {
            match self.inner.read(r) {
                Ok(v) => Ok(Some(v)),
                Err(e) => Err(e),
            }
        } else {
            Ok(None)
        }
    }
}

impl<I: DeepView, C: WriteFn<I>> WriteWith<bool, Option<I>> for OptionalBy<C> {
    open spec fn accepts_with(&self, key: bool, v: Option<I::V>) -> bool {
        match v {
            Some(x) => key && self.inner.accepts(x),
            None => !key,
        }
    }

    open spec fn spec_write_with(&self, key: bool, v: Option<I::V>) -> Encoded {
        match v {
            Some(x) => self.inner.spec_write(x),
            None => Encoded { bytes: Seq::empty(), result: Ok(()) },
        }
    }

    fn fits_with(&self, key: &bool, i: &Option<I>) -> (b: bool) {
        match i {
            Some(x) => *key && self.inner.fits(x),
            None => !*key,
        }
    }

    fn write_with(&self, key: &bool, w: &mut Sink, i: &Option<I>) -> (res: Result<(), BinError>) {
        match i {
            Some(x) => {
                if *key {
                    self.inner.write(w, x)
                } else {
                    unreached()
                }
            },
            None => {
                if *key {
                    unreached()
                } else {
                    Ok(())
                }
            },
        }
    }
}

/// A codec that does not depend on the key, for use where one that does is
/// expected.
#[derive(Debug)]
pub struct Keyless<C> {
    pub inner: C,
}

impl<K: DeepView, I: DeepView, C: ReadFn<I>> ReadWith<K, I> for Keyless<C> {
    open spec fn spec_read_with(&self, key: K::V, input: Seq<u8>) -> Decoded<I::V> {
        self.inner.spec_read(input)
    }

    fn read_with(&self, key: &K, r: &mut Source) -> (res: Result<I, BinError>) {
        self.inner.read(r)
    }
}

impl<K: DeepView, I: DeepView, C: WriteFn<I>> WriteWith<K, I> for Keyless<C> {
    open spec fn accepts_with(&self, key: K::V, v: I::V) -> bool {
        self.inner.accepts(v)
    }

    open spec fn spec_write_with(&self, key: K::V, v: I::V) -> Encoded {
        self.inner.spec_write(v)
    }

    fn fits_with(&self, key: &K, i: &I) -> (b: bool) {
        self.inner.fits(i)
    }

    fn write_with(&self, key: &K, w: &mut Sink, i: &I) -> (res: Result<(), BinError>) {
        self.inner.write(w, i)
    }
}

/// What reading one value and then another gives under a key that both
/// depend on.
pub open spec fn read_both_with<K, I, J, A, B>(
    first: A,
    second: B,
    key: K::V,
    input: Seq<u8>,
) -> Decoded<(I::V, J::V)> where
    K: DeepView,
    I: DeepView,
    J: DeepView,
    A: ReadWith<K, I>,
    B: ReadWith<K, J>,
 {
    let head = first.spec_read_with(key, input);
    match head.result {
        Err(e) => Decoded { result: Err(e), used: head.used },
        Ok(x) => {
            let tail = second.spec_read_with(key, input.skip(head.used as int));
            Decoded {
                result: match tail.result {
                    Ok(y) => Ok((x, y)),
                    Err(e) => Err(e),
                },
                used: head.used + tail.used,
            }
        },
    }
}

/// What writing one value and then another gives under a key that both
/// depend on.
pub open spec fn write_both_with<K, I, J, A, B>(
    first: A,
    second: B,
    key: K::V,
    x: I::V,
    y: J::V,
) -> Encoded where
    K: DeepView,
    I: DeepView,
    J: DeepView,
    A: WriteWith<K, I>,
    B: WriteWith<K, J>,
 {
    let head = first.spec_write_with(key, x);
    match head.result {
        Err(_) => head,
        Ok(_) => {
            let tail = second.spec_write_with(key, y);
            Encoded { bytes: head.bytes + tail.bytes, result: tail.result }
        },
    }
}

impl<K, I, J, A, B> ReadWith<K, (I, J)> for Pair<A, B> where
    K: DeepView,
    I: DeepView,
    J: DeepView,
    A: ReadWith<K, I>,
    B: ReadWith<K, J>,
 {
    open spec fn spec_read_with(&self, key: K::V, input: Seq<u8>) -> Decoded<(I::V, J::V)> {
        read_both_with(self.first, self.second, key, input)
    }

    fn read_with(&self, key: &K, r: &mut Source) -> (res: Result<(I, J), BinError>) {
        proof {
            use_type_invariant(&*r);
        }
        let ghost input = r.remaining();
        let x = match self.first.read_with(key, r) {
            Ok(x) => x,
            Err(e) => {
                return Err(e);
            },
        };
        assert(r.remaining() =~= input.skip(r.position() - old(r).position()));
        match self.second.read_with(key, r) {
            Ok(y) => Ok((x, y)),
            Err(e) => Err(e),
        }
    }
}

impl<K, I, J, A, B> WriteWith<K, (I, J)> for Pair<A, B> where
    K: DeepView,
    I: DeepView,
    J: DeepView,
    A: WriteWith<K, I>,
    B: WriteWith<K, J>,
 {
    open spec fn accepts_with(&self, key: K::V, v: (I::V, J::V)) -> bool {
        &&& self.first.accepts_with(key, v.0)
        &&& self.first.spec_write_with(key, v.0).result is Ok ==> self.second.accepts_with(
            key,
            v.1,
        )
    }

    open spec fn spec_write_with(&self, key: K::V, v: (I::V, J::V)) -> Encoded {
        write_both_with(self.first, self.second, key, v.0, v.1)
    }

    fn fits_with(&self, key: &K, i: &(I, J)) -> (b: bool) {
        if !self.first.fits_with(key, &i.0) {
            return false;
        }
        let mut trial = Sink::new();
        self.first.write_with(key, &mut trial, &i.0).is_err() || self.second.fits_with(key, &i.1)
    }

    fn write_with(&self, key: &K, w: &mut Sink, i: &(I, J)) -> (res: Result<(), BinError>) {
        match self.first.write_with(key, w, &i.0) {
            Ok(_) => {
                let res = self.second.write_with(key, w, &i.1);
                res
            },
            Err(e) => Err(e),
        }
    }
}

/// What reading a key and then the value that depends on it gives.
pub open spec fn read_bound<K: DeepView, I: DeepView, A: ReadFn<K>, F: ReadWith<K, I>>(
    key: A,
    value: F,
    input: Seq<u8>,
) -> Decoded<(K::V, I::V)> {
    let head = key.spec_read(input);
    match head.result {
        Err(e) => Decoded { result: Err(e), used: head.used },
        Ok(k) => {
            let tail = value.spec_read_with(k, input.skip(head.used as int));
            Decoded {
                result: match tail.result {
                    Ok(v) => Ok((k, v)),
                    Err(e) => Err(e),
                },
                used: head.used + tail.used,
            }
        },
    }
}

/// What writing a key and then the value that depends on it gives.
pub open spec fn write_bound<K: DeepView, I: DeepView, A: WriteFn<K>, F: WriteWith<K, I>>(
    key: A,
    value: F,
    k: K::V,
    v: I::V,
) -> Encoded {
    let head = key.spec_write(k);
    match head.result {
        Err(_) => head,
        Ok(_) => {
            let tail = value.spec_write_with(k, v);
            Encoded { bytes: head.bytes + tail.bytes, result: tail.result }
        },
    }
}

/// A codec of a key followed by a field whose layout the key decides.
#[derive(Debug)]
pub struct Bound<A, F> {
    pub key: A,
    pub value: F,
}

impl<K: DeepView, I: DeepView, A: ReadFn<K>, F: ReadWith<K, I>> ReadFn<(K, I)> for Bound<A, F> {
    open spec fn spec_read(&self, input: Seq<u8>) -> Decoded<(K::V, I::V)> {
        read_bound(self.key, self.value, input)
    }

    fn read(&self, r: &mut Source) -> (res: Result<(K, I), BinError>) {
        proof {
            use_type_invariant(&*r);
        }
        let ghost input = r.remaining();
        let k = match self.key.read(r) {
            Ok(k) => k,
            Err(e) => {
                return Err(e);
            },
        };
        assert(r.remaining() =~= input.skip(r.position() - old(r).position()));
        match self.value.read_with(&k, r) {
            Ok(v) => Ok((k, v)),
            Err(e) => Err(e),
        }
    }
}

impl<K: DeepView, I: DeepView, A: WriteFn<K>, F: WriteWith<K, I>> WriteFn<(K, I)> for Bound<A, F> {
    open spec fn accepts(&self, v: (K::V, I::V)) -> bool {
        &&& self.key.accepts(v.0)
        &&& self.key.spec_write(v.0).result is Ok ==> self.value.accepts_with(v.0, v.1)
    }

    open spec fn spec_write(&self, v: (K::V, I::V)) -> Encoded {
        write_bound(self.key, self.value, v.0, v.1)
    }

    fn fits(&self, i: &(K, I)) -> (b: bool) {
        if !self.key.fits(&i.0) {
            return false;
        }
        let mut trial = Sink::new();
        self.key.write(&mut trial, &i.0).is_err() || self.value.fits_with(&i.0, &i.1)
    }

    fn write(&self, w: &mut Sink, i: &(K, I)) -> (res: Result<(), BinError>) {
        match self.key.write(w, &i.0) {
            Ok(_) => {
                let res = self.value.write_with(&i.0, w, &i.1);
                res
            },
            Err(e) => Err(e),
        }
    }
}

/// The codec of a key, read and written with `a`, followed by the field
/// that `f` reads and writes under the key.
///
/// The key is bound first in both halves, so that the field that follows
/// can depend on it: its length, or whether it is there.
pub fn bound<Ra, Wa, Fr, Fw, K, I>(a: (Ra, Wa), f: (Fr, Fw)) -> (c: (Bound<Ra, Fr>, Bound<Wa, Fw>)) where
    Ra: ReadFn<K>,
    Wa: WriteFn<K>,
    Fr: ReadWith<K, I>,
    Fw: WriteWith<K, I>,
    K: DeepView,
    I: DeepView,

    ensures
        c.0.key == a.0,
        c.0.value == f.0,
        c.1.key == a.1,
        c.1.value == f.1,
{
    (Bound { key: a.0, value: f.0 }, Bound { key: a.1, value: f.1 })
}

/// The codec `f` as one that depends on a key, which it ignores.
pub fn keyless<Rf, Wf>(f: (Rf, Wf)) -> (c: (Keyless<Rf>, Keyless<Wf>))
    ensures
        c.0.inner == f.0,
        c.1.inner == f.1,
{
    (Keyless { inner: f.0 }, Keyless { inner: f.1 })
}

/// The codec, under a key, of as many values as the key says, each read and
/// written with `f`.
pub fn count_by<Rf, Wf, I>(f: (Rf, Wf)) -> (c: (CountBy<Rf>, CountBy<Wf>)) where
    Rf: ReadFn<I>,
    Wf: WriteFn<I>,
    I: DeepView,

    ensures
        c.0.inner == f.0,
        c.1.inner == f.1,
{
    (CountBy { inner: f.0 }, CountBy { inner: f.1 })
}

/// The codec, under a key, of a value that is there exactly when the key
/// is `true`, read and written with `f`.
pub fn optional_by<Rf, Wf, I>(f: (Rf, Wf)) -> (c: (OptionalBy<Rf>, OptionalBy<Wf>)) where
    Rf: ReadFn<I>,
    Wf: WriteFn<I>,
    I: DeepView,

    ensures
        c.0.inner == f.0,
        c.1.inner == f.1,
{
    (OptionalBy { inner: f.0 }, OptionalBy { inner: f.1 })
}

} // verus!
