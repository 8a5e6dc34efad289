//! Codecs that read and write binary data from one description.
//!
//! A codec is a pair: a reader, which implements [`ReadFn`], and a writer,
//! which implements [`WriteFn`]. The functions of [`numbers`] and
//! [`strings`] give the codecs of single values, those of [`utils`] and
//! [`sequence`] build larger codecs from smaller ones, and [`read`] and
//! [`write`] run one half of a codec on a stream of bytes in memory.
//!
//! Every codec has a model. [`ReadFn::spec_read`] says, for every input,
//! which value or error the reader gives and how many bytes it takes;
//! [`WriteFn::spec_write`] says which bytes the writer emits for a value,
//! and [`WriteFn::accepts`] which values it may be given at all. Values
//! stand in the model by their `deep_view`. What holds between the two
//! halves of the codecs of this crate is proved in [`laws`].
//!
//! Malformed data is reported as a [`BinError`]. A value that does not fit
//! the codec it is written with (a sequence of another length than the
//! codec's, say) is the caller's mistake: [`write`] rules it out by its
//! `requires`, [`WriteFn::fits`] tests for it, and [`write_if_fits`] writes
//! only what fits.

use vstd::prelude::*;

pub mod error;
pub mod stream;
pub mod model;
pub mod numbers;
pub mod utils;
pub mod strings;
pub mod sequence;
pub mod laws;

pub use vstd::view::DeepView;
pub use crate::error::BinError;
pub use crate::stream::{Decoded, Encoded, Sink, Source};
pub use crate::utils::{bind, boolean, cast, count, optional, skip, try_cast};

verus! {

/// The model of what a read returned.
pub open spec fn outcome<I: DeepView>(res: Result<I, BinError>) -> Result<I::V, BinError> {
    match res {
        Ok(v) => Ok(v.deep_view()),
        Err(e) => Err(e),
    }
}

/// The reading half of a codec for values of type `I`.
pub trait ReadFn<I: DeepView> {
    /// What reading from `input` gives: the value or the error, and the
    /// number of bytes taken.
    spec fn spec_read(&self, input: Seq<u8>) -> Decoded<I::V>;

    /// Reads one value from `r`, as [`Self::spec_read`] says of the bytes
    /// that `r` has left.
    fn read(&self, r: &mut Source) -> (res: Result<I, BinError>)
        ensures
            final(r).bytes() == old(r).bytes(),
            final(r).position() == old(r).position() + self.spec_read(old(r).remaining()).used,
            final(r).position() <= final(r).bytes().len(),
            outcome(res) == self.spec_read(old(r).remaining()).result,
    ;
}

/// The writing half of a codec for values of type `I`.
pub trait WriteFn<I: DeepView> {
    /// Whether the value fits the format. Writing a value that does not is
    /// a misuse of the codec, not an error that it reports.
    spec fn accepts(&self, v: I::V) -> bool;

    /// What writing `v` gives: the bytes emitted, and whether the write
    /// succeeded after them.
    spec fn spec_write(&self, v: I::V) -> Encoded;

    /// Tells whether `i` fits the format.
    fn fits(&self, i: &I) -> (b: bool)
        ensures
            b == self.accepts(i.deep_view()),
    ;

    /// Writes `i` to `w`, as [`Self::spec_write`] says.
    fn write(&self, w: &mut Sink, i: &I) -> (res: Result<(), BinError>)
        requires
            self.accepts(i.deep_view()),
        ensures
            final(w)@ == old(w)@ + self.spec_write(i.deep_view()).bytes,
            res == self.spec_write(i.deep_view()).result,
    ;
}

/// Reads one value from `r` with the reading half of the codec `f`.
pub fn read<Rf, Wf, I>(r: &mut Source, f: (Rf, Wf)) -> (res: Result<I, BinError>) where
    Rf: ReadFn<I>,
    I: DeepView,

    ensures
        final(r).bytes() == old(r).bytes(),
        final(r).position() == old(r).position() + f.0.spec_read(old(r).remaining()).used,
        final(r).position() <= final(r).bytes().len(),
        outcome(res) == f.0.spec_read(old(r).remaining()).result,
{
    f.0.read(r)
}

/// Writes `i` to `w` with the writing half of the codec `f`.
pub fn write<Rf, Wf, I>(w: &mut Sink, i: &I, f: (Rf, Wf)) -> (res: Result<(), BinError>) where
    Wf: WriteFn<I>,
    I: DeepView,

    requires
        f.1.accepts(i.deep_view()),
    ensures
        final(w)@ == old(w)@ + f.1.spec_write(i.deep_view()).bytes,
        res == f.1.spec_write(i.deep_view()).result,
{
    f.1.write(w, i)
}

/// Writes `i` to `w` with the writing half of the codec `f` if `i` fits the
/// codec, and writes nothing if it does not.
///
/// The result is `None` exactly when `i` does not fit.
pub fn write_if_fits<Rf, Wf, I>(w: &mut Sink, i: &I, f: (Rf, Wf)) -> (res: Option<
    Result<(), BinError>,
>) where Wf: WriteFn<I>, I: DeepView
    ensures
        res is Some <==> f.1.accepts(i.deep_view()),
        match res {
            Some(r) => {
                &&& final(w)@ == old(w)@ + f.1.spec_write(i.deep_view()).bytes
                &&& r == f.1.spec_write(i.deep_view()).result
            },
            None => final(w)@ == old(w)@,
        },
{
    if f.1.fits(i) {
        Some(f.1.write(w, i))
    } else {
        None
    }
}

} // verus!
