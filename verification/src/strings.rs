//! Codecs of text: UTF-8 and UTF-16, ended by a zero or of a given length,
//! and the wrapper that admits ASCII only.
//!
//! The code units of UTF-16 are read and written with the most significant
//! byte first.

use vstd::prelude::*;
use vstd::slice::{slice_subrange, slice_to_vec};
use vstd::string::StringExecFnsIsAscii;
use vstd::utf8::{decode_utf8, encode_utf8, is_ascii_chars, valid_utf8};
use vstd::pervasive::unreached;
use crate::error::BinError;
use crate::numbers::{
    be_bytes, be_nat, lemma_modulus_values, lemma_value_bound, read_u16_be, write_u16_be, Endian,
    U16Codec,
};
use crate::stream::{take_exact, Decoded, Encoded, Sink, Source};
use crate::{ReadFn, WriteFn};

verus! {

/// The error of `String::from_utf8`, of which nothing is read.
#[verifier::external_type_specification]
#[verifier::external_body]
pub struct ExFromUtf8Error(std::string::FromUtf8Error);

/// The error of `String::from_utf16`, of which nothing is read.
#[verifier::external_type_specification]
#[verifier::external_body]
pub struct ExFromUtf16Error(std::string::FromUtf16Error);

/// The text that `String::from_utf16` makes of the code units, or `None`
/// where it refuses them.
pub uninterp spec fn utf16_decoded(units: Seq<u16>) -> Option<Seq<char>>;

/// The code units that `str::encode_utf16` gives for the text.
pub uninterp spec fn utf16_encoded(text: Seq<char>) -> Seq<u16>;

/// The call `String::from_utf8` of std: the bytes are accepted exactly when
/// they are valid UTF-8, and the string then holds the text that they
/// encode.
#[verifier::external_body]
fn string_from_utf8(bytes: Vec<u8>) -> (r: Result<String, std::string::FromUtf8Error>)
    ensures
        match r {
            Ok(s) => valid_utf8(bytes@) && s@ == decode_utf8(bytes@),
            Err(_) => !valid_utf8(bytes@),
        },
{
    String::from_utf8(bytes)
}

/// The call `String::from_utf16` of std: what it returns is a function of
/// the code units, named [`utf16_decoded`].
#[verifier::external_body]
fn string_from_utf16(units: &[u16]) -> (r: Result<String, std::string::FromUtf16Error>)
    ensures
        match r {
            Ok(s) => utf16_decoded(units@) == Some(s@),
            Err(_) => utf16_decoded(units@) is None,
        },
{
    String::from_utf16(units)
}

/// The call `str::encode_utf16` of std, its items collected: the code units
/// are a function of the text, named [`utf16_encoded`].
#[verifier::external_body]
fn utf16_units(text: &str) -> (units: Vec<u16>)
    ensures
        units@ == utf16_encoded(text@),
{
    text.encode_utf16().collect()
}

/// The text that the bytes encode in UTF-8, or the error for bytes that
/// encode none.
pub open spec fn text_of_utf8(bytes: Seq<u8>) -> Result<Seq<char>, BinError> {
    if valid_utf8(bytes) {
        Ok(decode_utf8(bytes))
    } else {
        Err(BinError::Utf8Conversion)
    }
}

/// The text that the code units encode in UTF-16, or the error for units
/// that encode none.
pub open spec fn text_of_utf16(units: Seq<u16>) -> Result<Seq<char>, BinError> {
    match utf16_decoded(units) {
        Some(text) => Ok(text),
        None => Err(BinError::Utf16Conversion),
    }
}

/// The number of bytes of `input` before its first zero byte; the length of
/// `input` if it holds no zero byte.
pub open spec fn before_zero(input: Seq<u8>) -> nat
    decreases input.len(),
{
    if input.len() == 0 || input[0] == 0 {
        0
    } else {
        1 + before_zero(input.drop_first())
    }
}

/// The code units that the bytes spell, two bytes each; a last odd byte
/// spells none.
pub open spec fn units_of(bytes: Seq<u8>) -> Seq<u16> {
    Seq::new(bytes.len() / 2, |i: int| be_nat(bytes.subrange(2 * i, 2 * i + 2)) as u16)
}

/// The bytes that spell the code units, two bytes each.
pub open spec fn bytes_of_units(units: Seq<u16>) -> Seq<u8>
    decreases units.len(),
{
    if units.len() == 0 {
        Seq::empty()
    } else {
        bytes_of_units(units.drop_last()) + be_bytes(units.last() as nat, 2)
    }
}

/// The number of code units of `input` before its first zero unit, where
/// `input` is cut in units of two bytes from its start; the number of whole
/// units of `input` if none is zero.
pub open spec fn units_before_zero(input: Seq<u8>) -> nat
    decreases input.len(),
{
    if input.len() < 2 || be_nat(input.take(2)) == 0 {
        0
    } else {
        1 + units_before_zero(input.skip(2))
    }
}

/// What reading text that ends with a zero byte gives.
pub open spec fn read_null_utf8(input: Seq<u8>) -> Decoded<Seq<char>> {
    let n = before_zero(input);
    if n < input.len() {
        Decoded { result: text_of_utf8(input.take(n as int)), used: n + 1 }
    } else {
        Decoded { result: Err(BinError::UnexpectedEof), used: input.len() }
    }
}

/// What reading text of `len` bytes gives.
pub open spec fn read_len_utf8(input: Seq<u8>, len: nat) -> Decoded<Seq<char>> {
    let taken = take_exact(input, len);
    Decoded {
        result: match taken.result {
            Ok(bytes) => text_of_utf8(bytes),
            Err(e) => Err(e),
        },
        used: taken.used,
    }
}

/// What reading text that ends with a zero code unit gives.
pub open spec fn read_null_utf16(input: Seq<u8>) -> Decoded<Seq<char>> {
    let n = units_before_zero(input);
    if 2 * n + 2 <= input.len() {
        Decoded { result: text_of_utf16(units_of(input.take(2 * n as int))), used: 2 * n + 2 }
    } else {
        Decoded { result: Err(BinError::UnexpectedEof), used: input.len() }
    }
}

/// What reading text of `len` bytes of UTF-16 gives. An odd number of bytes
/// is no UTF-16.
pub open spec fn read_len_utf16(input: Seq<u8>, len: nat) -> Decoded<Seq<char>> {
    let taken = take_exact(input, len);
    Decoded {
        result: match taken.result {
            Ok(bytes) => if len % 2 == 0 {
                text_of_utf16(units_of(bytes))
            } else {
                Err(BinError::Utf16Conversion)
            },
            Err(e) => Err(e),
        },
        used: taken.used,
    }
}

/// Reads bytes up to and including the first zero byte, and returns those
/// before it.
fn read_until_zero(r: &mut Source) -> (res: Result<Vec<u8>, BinError>)
    ensures
        final(r).bytes() == old(r).bytes(),
        final(r).position() <= final(r).bytes().len(),
        match res {
            Ok(bytes) => {
                &&& bytes@.len() == before_zero(old(r).remaining())
                &&& bytes@.len() < old(r).remaining().len()
                &&& bytes@ == old(r).remaining().take(bytes@.len() as int)
                &&& final(r).position() == old(r).position() + bytes@.len() + 1
            },
            Err(e) => {
                &&& e == BinError::UnexpectedEof
                &&& before_zero(old(r).remaining()) == old(r).remaining().len()
                &&& final(r).position() == old(r).bytes().len()
            },
        },
{
    proof {
        use_type_invariant(&*r);
    }
    let ghost input = r.remaining();
    let mut bytes: Vec<u8> = Vec::new();
    assert(input.skip(0) =~= input);
    loop
        invariant_except_break
            r.position() == old(r).position() + bytes@.len(),
            before_zero(input) == bytes@.len() + before_zero(input.skip(bytes@.len() as int)),
        invariant
            input == old(r).remaining(),
            r.bytes() == old(r).bytes(),
            r.position() <= r.bytes().len(),
            bytes@.len() <= input.len(),
            bytes@ == input.take(bytes@.len() as int),
        ensures
            bytes@.len() == before_zero(input),
            bytes@.len() < input.len(),
            r.position() == old(r).position() + bytes@.len() + 1,
        decreases r.bytes().len() - r.position(),
    {
        let ghost k = bytes@.len() as int;
        let ghost rest = input.skip(k);
        match r.read_u8() {
            Err(e) => {
                return Err(e);
            },
            Ok(c) => {
                if c == 0 {
                    break ;
                }
                bytes.push(c);
                assert(rest.drop_first() =~= input.skip(k + 1));
            },
        }
    }
    Ok(bytes)
}

/// The codec of UTF-8 text that ends with a zero byte.
#[derive(Clone, Copy, Debug)]
pub struct NullUtf8;

impl ReadFn<String> for NullUtf8 {
    open spec fn spec_read(&self, input: Seq<u8>) -> Decoded<Seq<char>> {
        read_null_utf8(input)
    }

    fn read(&self, r: &mut Source) -> (res: Result<String, BinError>) {
        proof {
            use_type_invariant(&*r);
        }
        match read_until_zero(r) {
            Ok(bytes) => match string_from_utf8(bytes) {
                Ok(s) => Ok(s),
                Err(_) => Err(BinError::Utf8Conversion),
            },
            Err(e) => Err(e),
        }
    }
}

impl WriteFn<String> for NullUtf8 {
    open spec fn accepts(&self, v: Seq<char>) -> bool {
        true
    }

    open spec fn spec_write(&self, v: Seq<char>) -> Encoded {
        Encoded { bytes: encode_utf8(v).push(0), result: Ok(()) }
    }

    fn fits(&self, i: &String) -> (b: bool) {
        true
    }

    fn write(&self, w: &mut Sink, i: &String) -> (res: Result<(), BinError>) {
        w.write_all(i.as_str().as_bytes());
        w.write_u8(0);
        Ok(())
    }
}

/// The codec of UTF-8 text of `len` bytes.
#[derive(Clone, Copy, Debug)]
pub struct LenUtf8 {
    pub len: usize,
}

impl ReadFn<String> for LenUtf8 {
    open spec fn spec_read(&self, input: Seq<u8>) -> Decoded<Seq<char>> {
        read_len_utf8(input, self.len as nat)
    }

    fn read(&self, r: &mut Source) -> (res: Result<String, BinError>) {
        match r.take(self.len) {
            Ok(buf) => match string_from_utf8(slice_to_vec(buf)) {
                Ok(s) => Ok(s),
                Err(_) => Err(BinError::Utf8Conversion),
            },
            Err(e) => Err(e),
        }
    }
}

impl WriteFn<String> for LenUtf8 {
    open spec fn accepts(&self, v: Seq<char>) -> bool {
        encode_utf8(v).len() == self.len
    }

    open spec fn spec_write(&self, v: Seq<char>) -> Encoded {
        Encoded { bytes: encode_utf8(v), result: Ok(()) }
    }

    fn fits(&self, i: &String) -> (b: bool) {
        i.as_str().as_bytes().len() == self.len
    }

    fn write(&self, w: &mut Sink, i: &String) -> (res: Result<(), BinError>) {
        let bytes = i.as_str().as_bytes();
        if bytes.len() == self.len {
            w.write_all(bytes);
            Ok(())
        } else {
            unreached()
        }
    }
}

/// A codec of text that admits ASCII only, over the codec `inner`.
#[derive(Debug)]
pub struct Ascii<C> {
    pub inner: C,
}

impl<C: ReadFn<String>> ReadFn<String> for Ascii<C> {
    open spec fn spec_read(&self, input: Seq<u8>) -> Decoded<Seq<char>> {
        let read = self.inner.spec_read(input);
        Decoded {
            result: match read.result {
                Ok(text) => if is_ascii_chars(text) {
                    Ok(text)
                } else {
                    Err(BinError::CheckFail)
                },
                Err(e) => Err(e),
            },
            used: read.used,
        }
    }

    fn read(&self, r: &mut Source) -> (res: Result<String, BinError>) {
        match self.inner.read(r) {
            Ok(s) => if s.is_ascii() {
                Ok(s)
            } else {
                Err(BinError::CheckFail)
            },
            Err(e) => Err(e),
        }
    }
}

impl<C: WriteFn<String>> WriteFn<String> for Ascii<C> {
    open spec fn accepts(&self, v: Seq<char>) -> bool {
        is_ascii_chars(v) && self.inner.accepts(v)
    }

    open spec fn spec_write(&self, v: Seq<char>) -> Encoded {
        self.inner.spec_write(v)
    }

    fn fits(&self, i: &String) -> (b: bool) {
        i.is_ascii() && self.inner.fits(i)
    }

    fn write(&self, w: &mut Sink, i: &String) -> (res: Result<(), BinError>) {
        if i.is_ascii() {
            self.inner.write(w, i)
        } else {
            unreached()
        }
    }
}

/// Reads code units up to and including the first zero unit, and returns
/// those before it.
fn read_units_until_zero(r: &mut Source) -> (res: Result<Vec<u16>, BinError>)
    ensures
        final(r).bytes() == old(r).bytes(),
        final(r).position() <= final(r).bytes().len(),
        match res {
            Ok(units) => {
                &&& units@.len() == units_before_zero(old(r).remaining())
                &&& 2 * units@.len() + 2 <= old(r).remaining().len()
                &&& units@ == units_of(old(r).remaining().take(2 * units@.len() as int))
                &&& final(r).position() == old(r).position() + 2 * units@.len() + 2
            },
            Err(e) => {
                &&& e == BinError::UnexpectedEof
                &&& 2 * units_before_zero(old(r).remaining()) + 2 > old(r).remaining().len()
                &&& final(r).position() == old(r).bytes().len()
            },
        },
{
    proof {
        use_type_invariant(&*r);
    }
    let ghost input = r.remaining();
    let unit = U16Codec { order: Endian::Big };
    let mut units: Vec<u16> = Vec::new();
    assert(input.skip(0) =~= input);
    loop
        invariant_except_break
            r.position() == old(r).position() + 2 * units@.len(),
            units_before_zero(input) == units@.len() + units_before_zero(
                input.skip(2 * units@.len() as int),
            ),
        invariant
            input == old(r).remaining(),
            unit.order == Endian::Big,
            r.bytes() == old(r).bytes(),
            r.position() <= r.bytes().len(),
            2 * units@.len() <= input.len(),
            units@ == units_of(input.take(2 * units@.len() as int)),
        ensures
            units@.len() == units_before_zero(input),
            2 * units@.len() + 2 <= input.len(),
            r.position() == old(r).position() + 2 * units@.len() + 2,
        decreases r.bytes().len() - r.position(),
    {
        let ghost k = units@.len() as int;
        let ghost rest = input.skip(2 * k);
        assert(rest =~= r.remaining());
        match unit.read(r) {
            Err(e) => {
                return Err(e);
            },
            Ok(u) => {
                proof {
                    lemma_value_bound(rest.take(2), Endian::Big);
                    lemma_modulus_values();
                }
                if u == 0 {
                    break ;
                }
                units.push(u);
                assert(rest.skip(2) =~= input.skip(2 * (k + 1)));
                assert(units@ =~= units_of(input.take(2 * (k + 1)))) by {
                    let wider = input.take(2 * (k + 1));
                    let narrow = input.take(2 * k);
                    assert forall|j: int| 0 <= j < k + 1 implies units@[j] == units_of(wider)[j] by {
                        if j < k {
                            assert(wider.subrange(2 * j, 2 * j + 2) =~= narrow.subrange(
                                2 * j,
                                2 * j + 2,
                            ));
                        } else {
                            assert(wider.subrange(2 * j, 2 * j + 2) =~= rest.take(2));
                        }
                    }
                }
            },
        }
    }
    Ok(units)
}

/// Writes the code units, two bytes each.
fn write_units(w: &mut Sink, units: &Vec<u16>)
    ensures
        final(w)@ == old(w)@ + bytes_of_units(units@),
{
    let mut j: usize = 0;
    while j < units.len()
        invariant
            j <= units@.len(),
            w@ == old(w)@ + bytes_of_units(units@.take(j as int)),
        decreases units@.len() - j,
    {
        let buf = write_u16_be(units[j]);
        w.write_all(buf.as_slice());
        proof {
            let next = units@.take(j + 1);
            assert(next.drop_last() =~= units@.take(j as int));
        }
        j = j + 1;
    }
    assert(units@.take(j as int) =~= units@);
}

/// The codec of UTF-16 text that ends with a zero code unit.
#[derive(Clone, Copy, Debug)]
pub struct NullUtf16;

impl ReadFn<String> for NullUtf16 {
    open spec fn spec_read(&self, input: Seq<u8>) -> Decoded<Seq<char>> {
        read_null_utf16(input)
    }

    fn read(&self, r: &mut Source) -> (res: Result<String, BinError>) {
        proof {
            use_type_invariant(&*r);
        }
        match read_units_until_zero(r) {
            Ok(units) => match string_from_utf16(units.as_slice()) {
                Ok(s) => Ok(s),
                Err(_) => Err(BinError::Utf16Conversion),
            },
            Err(e) => Err(e),
        }
    }
}

impl WriteFn<String> for NullUtf16 {
    open spec fn accepts(&self, v: Seq<char>) -> bool {
        true
    }

    open spec fn spec_write(&self, v: Seq<char>) -> Encoded {
        Encoded { bytes: bytes_of_units(utf16_encoded(v)) + seq![0u8, 0u8], result: Ok(()) }
    }

    fn fits(&self, i: &String) -> (b: bool) {
        true
    }

    fn write(&self, w: &mut Sink, i: &String) -> (res: Result<(), BinError>) {
        let units = utf16_units(i.as_str());
        write_units(w, &units);
        w.write_u8(0);
        w.write_u8(0);
        Ok(())
    }
}

/// The codec of UTF-16 text of `len` bytes.
#[derive(Clone, Copy, Debug)]
pub struct LenUtf16 {
    pub len: usize,
}

impl ReadFn<String> for LenUtf16 {
    open spec fn spec_read(&self, input: Seq<u8>) -> Decoded<Seq<char>> {
        read_len_utf16(input, self.len as nat)
    }

    fn read(&self, r: &mut Source) -> (res: Result<String, BinError>) {
        match r.take(self.len) {
            Ok(buf) => {
                if self.len % 2 != 0 {
                    return Err(BinError::Utf16Conversion);
                }
                let count = self.len / 2;
                let mut units: Vec<u16> = Vec::new();
                let mut j: usize = 0;
                while j < count
                    invariant
                        buf@.len() == self.len,
                        count == self.len / 2,
                        j <= count,
                        units@ == units_of(buf@).take(j as int),
                    decreases count - j,
                {
                    let pair = slice_subrange(buf, 2 * j, 2 * j + 2);
                    assert(pair@.take(2) =~= pair@);
                    units.push(read_u16_be(pair));
                    j = j + 1;
                }
                assert(units@ =~= units_of(buf@));
                match string_from_utf16(units.as_slice()) {
                    Ok(s) => Ok(s),
                    Err(_) => Err(BinError::Utf16Conversion),
                }
            },
            Err(e) => Err(e),
        }
    }
}

impl WriteFn<String> for LenUtf16 {
    open spec fn accepts(&self, v: Seq<char>) -> bool {
        2 * utf16_encoded(v).len() == self.len
    }

    open spec fn spec_write(&self, v: Seq<char>) -> Encoded {
        Encoded { bytes: bytes_of_units(utf16_encoded(v)), result: Ok(()) }
    }

    fn fits(&self, i: &String) -> (b: bool) {
        let units = utf16_units(i.as_str());
        self.len % 2 == 0 && units.len() == self.len / 2
    }

    fn write(&self, w: &mut Sink, i: &String) -> (res: Result<(), BinError>) {
        let units = utf16_units(i.as_str());
        if self.len % 2 == 0 && units.len() == self.len / 2 {
            write_units(w, &units);
            Ok(())
        } else {
            unreached()
        }
    }
}

/// The codec of ASCII text that ends with a zero byte.
///
/// Reading fails with [`BinError::CheckFail`] on text that is not ASCII;
/// only ASCII text may be written.
pub fn null_ascii() -> (c: (Ascii<NullUtf8>, Ascii<NullUtf8>))
    ensures
        c == (Ascii { inner: NullUtf8 }, Ascii { inner: NullUtf8 }),
{
    (Ascii { inner: NullUtf8 }, Ascii { inner: NullUtf8 })
}

/// The codec of ASCII text of `len` bytes.
///
/// Reading fails with [`BinError::CheckFail`] on text that is not ASCII;
/// only ASCII text of `len` bytes may be written.
pub fn len_ascii(len: usize) -> (c: (Ascii<LenUtf8>, Ascii<LenUtf8>))
    ensures
        c == (Ascii { inner: LenUtf8 { len } }, Ascii { inner: LenUtf8 { len } }),
{
    (Ascii { inner: LenUtf8 { len } }, Ascii { inner: LenUtf8 { len } })
}

/// The codec of UTF-8 text that ends with a zero byte.
pub fn null_utf8() -> (c: (NullUtf8, NullUtf8))
    ensures
        c == (NullUtf8, NullUtf8),
{
    (NullUtf8, NullUtf8)
}

/// The codec of UTF-8 text of `len` bytes. Only text of `len` bytes may be
/// written.
pub fn len_utf8(len: usize) -> (c: (LenUtf8, LenUtf8))
    ensures
        c == (LenUtf8 { len }, LenUtf8 { len }),
{
    (LenUtf8 { len }, LenUtf8 { len })
}

/// The codec of UTF-16 text that ends with a zero code unit.
pub fn null_utf16() -> (c: (NullUtf16, NullUtf16))
    ensures
        c == (NullUtf16, NullUtf16),
{
    (NullUtf16, NullUtf16)
}

/// The codec of UTF-16 text of `len` bytes. Only text of `len` bytes may
/// be written.
pub fn len_utf16(len: usize) -> (c: (LenUtf16, LenUtf16))
    ensures
        c == (LenUtf16 { len }, LenUtf16 { len }),
{
    (LenUtf16 { len }, LenUtf16 { len })
}

} // verus!
