//! What holds between the two halves of the codecs of this crate.
//!
//! Each law is stated over the models of the codecs, the functions that
//! the contracts of [`crate::ReadFn::read`] and [`crate::WriteFn::write`]
//! speak of, and so holds of what these do.
//!
//! - Round trip: what a codec writes for a value, it reads back as that
//!   value, taking the bytes written and no more. It holds for the codecs
//!   of numbers, for UTF-8 text, and for every codec built from codecs for
//!   which it holds.
//! - Every run of bytes of the right length is a number, and writing the
//!   number gives these bytes again.
//! - The two byte orders mirror each other.
//! - A field that must hold a given value takes the bytes of one value
//!   whether it holds the value or not; an absent field takes none.
//! - A sequence of another length than the codec's, and an optional value
//!   against its flag, fit no codec.

use vstd::prelude::*;
use vstd::utf8::{
    char_u32_cast, encode_scalar, encode_utf8, encode_utf8_decode_utf8, encode_utf8_valid_utf8,
    is_ascii_chars,
};
use crate::numbers::{
    bytes_of, lemma_bytes_of_value, lemma_modulus_values, lemma_orders_mirror,
    lemma_signed_of_unsigned, lemma_unsigned_of_signed, lemma_value_bound, lemma_value_of_bytes,
    unsigned, Endian, I16Codec, I32Codec, I64Codec, I8Codec, U16Codec, U32Codec, U64Codec,
    U8Codec,
};
use crate::model::{model_from, model_into, model_try_from, model_try_into};
use crate::sequence::{
    Bound, CountBy, Keyless, Length, OptionalBy, Pair, Prefixed, ReadWith, Suffixed, WriteWith,
};
use crate::stream::Decoded;
use crate::strings::{before_zero, Ascii, LenUtf8, NullUtf8};
use crate::utils::{
    read_count, write_each, BindReader, BindWriter, Boolean, Cast, Count, Optional, SkipReader,
    SkipWriter, TryCast,
};
use crate::{BinError, ReadFn, WriteFn};

verus! {

/// Reading the bytes that `w` writes for `v`, whatever follows them, gives
/// `v` and takes exactly those bytes. Nothing is said of a value whose
/// write fails.
pub open spec fn round_trip<I: DeepView, Rf: ReadFn<I>, Wf: WriteFn<I>>(
    r: Rf,
    w: Wf,
    v: I::V,
) -> bool {
    w.spec_write(v).result is Ok ==> forall|rest: Seq<u8>|
        #[trigger] r.spec_read(w.spec_write(v).bytes + rest) == (Decoded {
            result: Ok::<I::V, BinError>(v),
            used: w.spec_write(v).bytes.len(),
        })
}

/// An unsigned byte comes back as written.
pub proof fn u8_round_trip(v: u8)
    ensures
        round_trip(U8Codec, U8Codec, v),
{
}

/// A signed byte comes back as written.
pub proof fn i8_round_trip(v: i8)
    ensures
        round_trip(I8Codec, I8Codec, v),
{
    lemma_modulus_values();
}

/// An unsigned number of 16 bits comes back as written, in either byte
/// order.
pub proof fn u16_round_trip(order: Endian, v: u16)
    ensures
        round_trip(U16Codec { order }, U16Codec { order }, v),
{
    let codec = U16Codec { order };
    let n = v as nat;
    lemma_modulus_values();
    lemma_value_of_bytes(n, 2, order);
    let bytes = bytes_of(n, 2, order);
    assert forall|rest: Seq<u8>|
        #[trigger] codec.spec_read(codec.spec_write(v).bytes + rest) == (Decoded {
            result: Ok::<u16, BinError>(v),
            used: 2,
        }) by {
        assert((bytes + rest).take(2) =~= bytes);
    }
}

/// A signed number of 16 bits comes back as written, in either byte
/// order.
pub proof fn i16_round_trip(order: Endian, v: i16)
    ensures
        round_trip(I16Codec { order }, I16Codec { order }, v),
{
    let codec = I16Codec { order };
    let n = unsigned(v as int, 2);
    lemma_modulus_values();
    lemma_signed_of_unsigned(v as int, 2);
    lemma_value_of_bytes(n, 2, order);
    let bytes = bytes_of(n, 2, order);
    assert forall|rest: Seq<u8>|
        #[trigger] codec.spec_read(codec.spec_write(v).bytes + rest) == (Decoded {
            result: Ok::<i16, BinError>(v),
            used: 2,
        }) by {
        assert((bytes + rest).take(2) =~= bytes);
    }
}

/// An unsigned number of 32 bits comes back as written, in either byte
/// order.
pub proof fn u32_round_trip(order: Endian, v: u32)
    ensures
        round_trip(U32Codec { order }, U32Codec { order }, v),
{
    let codec = U32Codec { order };
    let n = v as nat;
    lemma_modulus_values();
    lemma_value_of_bytes(n, 4, order);
    let bytes = bytes_of(n, 4, order);
    assert forall|rest: Seq<u8>|
        #[trigger] codec.spec_read(codec.spec_write(v).bytes + rest) == (Decoded {
            result: Ok::<u32, BinError>(v),
            used: 4,
        }) by {
        assert((bytes + rest).take(4) =~= bytes);
    }
}

/// A signed number of 32 bits comes back as written, in either byte
/// order.
pub proof fn i32_round_trip(order: Endian, v: i32)
    ensures
        round_trip(I32Codec { order }, I32Codec { order }, v),
{
    let codec = I32Codec { order };
    let n = unsigned(v as int, 4);
    lemma_modulus_values();
    lemma_signed_of_unsigned(v as int, 4);
    lemma_value_of_bytes(n, 4, order);
    let bytes = bytes_of(n, 4, order);
    assert forall|rest: Seq<u8>|
        #[trigger] codec.spec_read(codec.spec_write(v).bytes + rest) == (Decoded {
            result: Ok::<i32, BinError>(v),
            used: 4,
        }) by {
        assert((bytes + rest).take(4) =~= bytes);
    }
}

/// An unsigned number of 64 bits comes back as written, in either byte
/// order.
pub proof fn u64_round_trip(order: Endian, v: u64)
    ensures
        round_trip(U64Codec { order }, U64Codec { order }, v),
{
    let codec = U64Codec { order };
    let n = v as nat;
    lemma_modulus_values();
    lemma_value_of_bytes(n, 8, order);
    let bytes = bytes_of(n, 8, order);
    assert forall|rest: Seq<u8>|
        #[trigger] codec.spec_read(codec.spec_write(v).bytes + rest) == (Decoded {
            result: Ok::<u64, BinError>(v),
            used: 8,
        }) by {
        assert((bytes + rest).take(8) =~= bytes);
    }
}

/// A signed number of 64 bits comes back as written, in either byte
/// order.
pub proof fn i64_round_trip(order: Endian, v: i64)
    ensures
        round_trip(I64Codec { order }, I64Codec { order }, v),
{
    let codec = I64Codec { order };
    let n = unsigned(v as int, 8);
    lemma_modulus_values();
    lemma_signed_of_unsigned(v as int, 8);
    lemma_value_of_bytes(n, 8, order);
    let bytes = bytes_of(n, 8, order);
    assert forall|rest: Seq<u8>|
        #[trigger] codec.spec_read(codec.spec_write(v).bytes + rest) == (Decoded {
            result: Ok::<i64, BinError>(v),
            used: 8,
        }) by {
        assert((bytes + rest).take(8) =~= bytes);
    }
}

/// Any 2 bytes are an unsigned number of 16 bits, and writing the number
/// that they are read as gives the same bytes.
pub proof fn u16_bytes_come_back(order: Endian, bytes: Seq<u8>)
    requires
        bytes.len() == 2,
    ensures
        (U16Codec { order }).spec_read(bytes).used == 2,
        (U16Codec { order }).spec_read(bytes).result matches Ok(v) && (U16Codec {
            order,
        }).spec_write(v).bytes == bytes,
{
    lemma_modulus_values();
    lemma_value_bound(bytes, order);
    lemma_bytes_of_value(bytes, order);
    assert(bytes.take(2) =~= bytes);
}

/// Any 2 bytes are a signed number of 16 bits, and writing the number
/// that they are read as gives the same bytes.
pub proof fn i16_bytes_come_back(order: Endian, bytes: Seq<u8>)
    requires
        bytes.len() == 2,
    ensures
        (I16Codec { order }).spec_read(bytes).used == 2,
        (I16Codec { order }).spec_read(bytes).result matches Ok(v) && (I16Codec {
            order,
        }).spec_write(v).bytes == bytes,
{
    lemma_modulus_values();
    lemma_value_bound(bytes, order);
    lemma_bytes_of_value(bytes, order);
    lemma_unsigned_of_signed(crate::numbers::value_of(bytes, order), 2);
    assert(bytes.take(2) =~= bytes);
}

/// Any 4 bytes are an unsigned number of 32 bits, and writing the number
/// that they are read as gives the same bytes.
pub proof fn u32_bytes_come_back(order: Endian, bytes: Seq<u8>)
    requires
        bytes.len() == 4,
    ensures
        (U32Codec { order }).spec_read(bytes).used == 4,
        (U32Codec { order }).spec_read(bytes).result matches Ok(v) && (U32Codec {
            order,
        }).spec_write(v).bytes == bytes,
{
    lemma_modulus_values();
    lemma_value_bound(bytes, order);
    lemma_bytes_of_value(bytes, order);
    assert(bytes.take(4) =~= bytes);
}

/// Any 4 bytes are a signed number of 32 bits, and writing the number
/// that they are read as gives the same bytes.
pub proof fn i32_bytes_come_back(order: Endian, bytes: Seq<u8>)
    requires
        bytes.len() == 4,
    ensures
        (I32Codec { order }).spec_read(bytes).used == 4,
        (I32Codec { order }).spec_read(bytes).result matches Ok(v) && (I32Codec {
            order,
        }).spec_write(v).bytes == bytes,
{
    lemma_modulus_values();
    lemma_value_bound(bytes, order);
    lemma_bytes_of_value(bytes, order);
    lemma_unsigned_of_signed(crate::numbers::value_of(bytes, order), 4);
    assert(bytes.take(4) =~= bytes);
}

/// Any 8 bytes are an unsigned number of 64 bits, and writing the number
/// that they are read as gives the same bytes.
pub proof fn u64_bytes_come_back(order: Endian, bytes: Seq<u8>)
    requires
        bytes.len() == 8,
    ensures
        (U64Codec { order }).spec_read(bytes).used == 8,
        (U64Codec { order }).spec_read(bytes).result matches Ok(v) && (U64Codec {
            order,
        }).spec_write(v).bytes == bytes,
{
    lemma_modulus_values();
    lemma_value_bound(bytes, order);
    lemma_bytes_of_value(bytes, order);
    assert(bytes.take(8) =~= bytes);
}

/// Any 8 bytes are a signed number of 64 bits, and writing the number
/// that they are read as gives the same bytes.
pub proof fn i64_bytes_come_back(order: Endian, bytes: Seq<u8>)
    requires
        bytes.len() == 8,
    ensures
        (I64Codec { order }).spec_read(bytes).used == 8,
        (I64Codec { order }).spec_read(bytes).result matches Ok(v) && (I64Codec {
            order,
        }).spec_write(v).bytes == bytes,
{
    lemma_modulus_values();
    lemma_value_bound(bytes, order);
    lemma_bytes_of_value(bytes, order);
    lemma_unsigned_of_signed(crate::numbers::value_of(bytes, order), 8);
    assert(bytes.take(8) =~= bytes);
}

/// The two byte orders are each other's mirror image: a number written
/// most significant byte first has, at each place, the byte that stands at
/// that place from the end when it is written least significant byte first.
pub proof fn byte_orders_mirror_u16(v: u16, j: int)
    requires
        0 <= j < 2,
    ensures
        (U16Codec { order: Endian::Big }).spec_write(v).bytes[j] == (U16Codec {
            order: Endian::Little,
        }).spec_write(v).bytes[1 - j],
{
    lemma_orders_mirror(v as nat, 2, j);
}

/// As [`byte_orders_mirror_u16`], on four bytes.
pub proof fn byte_orders_mirror_u32(v: u32, j: int)
    requires
        0 <= j < 4,
    ensures
        (U32Codec { order: Endian::Big }).spec_write(v).bytes[j] == (U32Codec {
            order: Endian::Little,
        }).spec_write(v).bytes[3 - j],
{
    lemma_orders_mirror(v as nat, 4, j);
}

/// As [`byte_orders_mirror_u16`], on eight bytes.
pub proof fn byte_orders_mirror_u64(v: u64, j: int)
    requires
        0 <= j < 8,
    ensures
        (U64Codec { order: Endian::Big }).spec_write(v).bytes[j] == (U64Codec {
            order: Endian::Little,
        }).spec_write(v).bytes[7 - j],
{
    lemma_orders_mirror(v as nat, 8, j);
}

/// Text comes back as written through the codec of its length.
pub proof fn len_utf8_round_trip(len: usize, text: Seq<char>)
    requires
        encode_utf8(text).len() == len,
    ensures
        round_trip(LenUtf8 { len }, LenUtf8 { len }, text),
{
    let codec = LenUtf8 { len };
    let bytes = encode_utf8(text);
    encode_utf8_valid_utf8(text);
    encode_utf8_decode_utf8(text);
    assert forall|rest: Seq<u8>|
        #[trigger] codec.spec_read(codec.spec_write(text).bytes + rest) == (Decoded {
            result: Ok::<Seq<char>, BinError>(text),
            used: bytes.len(),
        }) by {
        assert((bytes + rest).take(len as int) =~= bytes);
    }
}

/// No byte of the UTF-8 encoding of a character other than the null
/// character is zero.
proof fn lemma_scalar_has_no_zero(scalar: u32)
    requires
        scalar != 0,
    ensures
        forall|j: int| 0 <= j < encode_scalar(scalar).len() ==> encode_scalar(scalar)[j] != 0,
{
    assert(scalar <= 0x7f ==> (scalar & 0x7f) as u8 != 0) by (bit_vector)
        requires
            scalar != 0,
    ;
    assert(forall|x: u8| 0xc0u8 | x != 0) by (bit_vector);
    assert(forall|x: u8| 0xe0u8 | x != 0) by (bit_vector);
    assert(forall|x: u8| 0xf0u8 | x != 0) by (bit_vector);
    assert(forall|x: u8| 0x80u8 | x != 0) by (bit_vector);
}

/// No byte of the UTF-8 encoding of text without a null character is zero.
proof fn lemma_text_has_no_zero(text: Seq<char>)
    requires
        forall|j: int| 0 <= j < text.len() ==> text[j] != '\0',
    ensures
        forall|j: int| 0 <= j < encode_utf8(text).len() ==> encode_utf8(text)[j] != 0,
    decreases text.len(),
{
    if text.len() > 0 {
        let first = text[0] as u32;
        if first == 0 {
            char_u32_cast(text[0], first);
            char_u32_cast('\0', 0u32);
        }
        lemma_scalar_has_no_zero(first);
        lemma_text_has_no_zero(text.drop_first());
        let head = encode_scalar(first);
        let tail = encode_utf8(text.drop_first());
        assert forall|j: int| 0 <= j < encode_utf8(text).len() implies encode_utf8(text)[j]
            != 0 by {
            if j < head.len() {
                assert((head + tail)[j] == head[j]);
            } else {
                assert((head + tail)[j] == tail[j - head.len()]);
            }
        }
    }
}

/// Where the first `k` bytes are not zero and the next one is, `k` bytes
/// stand before the first zero.
proof fn lemma_before_zero(input: Seq<u8>, k: int)
    requires
        0 <= k < input.len(),
        forall|j: int| 0 <= j < k ==> input[j] != 0,
        input[k] == 0,
    ensures
        before_zero(input) == k,
    decreases k,
{
    if k > 0 {
        lemma_before_zero(input.drop_first(), k - 1);
    }
}

/// Text without a null character comes back as written through the codec
/// of text that ends with a zero byte.
pub proof fn null_utf8_round_trip(text: Seq<char>)
    requires
        forall|j: int| 0 <= j < text.len() ==> text[j] != '\0',
    ensures
        round_trip(NullUtf8, NullUtf8, text),
{
    let bytes = encode_utf8(text);
    lemma_text_has_no_zero(text);
    encode_utf8_valid_utf8(text);
    encode_utf8_decode_utf8(text);
    assert forall|rest: Seq<u8>|
        #[trigger] NullUtf8.spec_read(NullUtf8.spec_write(text).bytes + rest) == (Decoded {
            result: Ok::<Seq<char>, BinError>(text),
            used: bytes.len() + 1,
        }) by {
        let input = bytes.push(0) + rest;
        lemma_before_zero(input, bytes.len() as int);
        assert(input.take(bytes.len() as int) =~= bytes);
    }
}

/// ASCII text comes back as written through a codec that admits ASCII
/// only, if it does through the codec below.
pub proof fn ascii_round_trip<Rf, Wf>(read: Ascii<Rf>, write: Ascii<Wf>, text: Seq<char>) where
    Rf: ReadFn<String>,
    Wf: WriteFn<String>,

    requires
        is_ascii_chars(text),
        round_trip(read.inner, write.inner, text),
    ensures
        round_trip(read, write, text),
{
}

/// Two fields in a row come back as written, if each does: the writer and
/// the reader take the fields in one order.
pub proof fn pair_round_trip<I, J, Ra, Wa, Rb, Wb>(
    read: Pair<Ra, Rb>,
    write: Pair<Wa, Wb>,
    x: I::V,
    y: J::V,
) where I: DeepView, J: DeepView, Ra: ReadFn<I>, Wa: WriteFn<I>, Rb: ReadFn<J>, Wb: WriteFn<J>
    requires
        round_trip(read.first, write.first, x),
        round_trip(read.second, write.second, y),
    ensures
        round_trip(read, write, (x, y)),
{
    let written = write.spec_write((x, y));
    if written.result is Ok {
        let head = write.first.spec_write(x).bytes;
        let tail = write.second.spec_write(y).bytes;
        assert forall|rest: Seq<u8>| #[trigger]
            read.spec_read(written.bytes + rest) == (Decoded {
                result: Ok::<(I::V, J::V), BinError>((x, y)),
                used: written.bytes.len(),
            }) by {
            let input = written.bytes + rest;
            assert(input =~= head + (tail + rest));
            assert(input.skip(head.len() as int) =~= tail + rest);
        }
    }
}

/// A value that may be absent comes back as written, if the value does
/// where it is present.
pub proof fn optional_round_trip<I, Rf, Wf>(read: Optional<Rf>, write: Optional<Wf>, v: Option<I::V>) where
    I: DeepView,
    Rf: ReadFn<I>,
    Wf: WriteFn<I>,

    requires
        read.present == write.present,
        write.accepts(v),
        v matches Some(x) ==> round_trip(read.inner, write.inner, x),
    ensures
        round_trip(read, write, v),
{
    let written = write.spec_write(v);
    if written.result is Ok {
        assert forall|rest: Seq<u8>| #[trigger]
            read.spec_read(written.bytes + rest) == (Decoded {
                result: Ok::<Option<I::V>, BinError>(v),
                used: written.bytes.len(),
            }) by {
            match v {
                Some(x) => {},
                None => {},
            }
        }
    }
}

/// Where no stream has a value, none is read: the result is absent and no
/// byte is taken, whatever the input.
pub proof fn optional_absent<I, Rf>(read: Optional<Rf>, input: Seq<u8>) where
    I: DeepView,
    Rf: ReadFn<I>,

    requires
        !read.present,
    ensures
        read.spec_read(input) == (Decoded {
            result: Ok::<Option<I::V>, BinError>(None),
            used: 0,
        }),
{
}

/// Where no stream has a value, a value that is present does not fit, and
/// where it has one, an absent value does not.
pub proof fn optional_rejects_mismatch<I, Wf>(write: Optional<Wf>, v: Option<I::V>) where
    I: DeepView,
    Wf: WriteFn<I>,

    requires
        write.present != (v is Some),
    ensures
        !write.accepts(v),
{
}

/// A sequence of another number of values than the codec's does not fit
/// it.
pub proof fn count_rejects_other_lengths<I, Wf>(write: Count<Wf>, values: Seq<I::V>) where
    I: DeepView,
    Wf: WriteFn<I>,

    requires
        values.len() != write.count,
    ensures
        !write.accepts(values),
{
}

/// The first `k` of the values come back as written, if each of them does.
proof fn lemma_count_prefix<I, Rf, Wf>(r: Rf, w: Wf, values: Seq<I::V>, k: nat, rest: Seq<u8>) where
    I: DeepView,
    Rf: ReadFn<I>,
    Wf: WriteFn<I>,

    requires
        k <= values.len(),
        forall|j: int| 0 <= j < values.len() ==> round_trip(r, w, #[trigger] values[j]),
        write_each(w, values.take(k as int)).result is Ok,
    ensures
        read_count(r, k, write_each(w, values.take(k as int)).bytes + rest) == (Decoded {
            result: Ok::<Seq<I::V>, BinError>(values.take(k as int)),
            used: write_each(w, values.take(k as int)).bytes.len(),
        }),
    decreases k,
{
    let taken = values.take(k as int);
    if k == 0 {
        assert(taken =~= Seq::empty());
    } else {
        let front = values.take(k - 1);
        assert(taken.drop_last() =~= front);
        let head = write_each(w, front).bytes;
        let last = w.spec_write(values[k - 1]).bytes;
        lemma_count_prefix(r, w, values, (k - 1) as nat, last + rest);
        let input = write_each(w, taken).bytes + rest;
        assert(input =~= head + (last + rest));
        assert(input.skip(head.len() as int) =~= last + rest);
        assert(front.push(values[k - 1]) =~= taken);
    }
}

/// Values in a row come back as written, if each of them does.
pub proof fn count_round_trip<I, Rf, Wf>(read: Count<Rf>, write: Count<Wf>, values: Seq<I::V>) where
    I: DeepView,
    Rf: ReadFn<I>,
    Wf: WriteFn<I>,

    requires
        read.count == write.count,
        values.len() == write.count,
        forall|j: int|
            0 <= j < values.len() ==> round_trip(read.inner, write.inner, #[trigger] values[j]),
    ensures
        round_trip(read, write, values),
{
    let written = write.spec_write(values);
    if written.result is Ok {
        assert(values.take(values.len() as int) =~= values);
        assert forall|rest: Seq<u8>| #[trigger]
            read.spec_read(written.bytes + rest) == (Decoded {
                result: Ok::<Seq<I::V>, BinError>(values),
                used: written.bytes.len(),
            }) by {
            lemma_count_prefix(read.inner, write.inner, values, values.len(), rest);
        }
    }
}

/// Reading a bound field takes what reading the value takes, whether the
/// check passes or not, and succeeds exactly on the value that is bound.
pub proof fn bind_checks_value<I, Rf>(read: BindReader<Rf, I>, input: Seq<u8>) where
    I: DeepView + PartialEq,
    Rf: ReadFn<I>,

    ensures
        read.spec_read(input).used == read.inner().spec_read(input).used,
        read.spec_read(input).result is Ok <==> read.inner().spec_read(input).result == Ok::<
            I::V,
            BinError,
        >(read.expected()),
        read.inner().spec_read(input).result matches Ok(v) && v != read.expected()
            ==> read.spec_read(input).result == Err::<(), BinError>(BinError::CheckFail),
        read.inner().spec_read(input).result matches Err(e) ==> read.spec_read(input).result
            == Err::<(), BinError>(e),
{
}

/// A bound field comes back as written, if its value does: writing always
/// writes the bound value, and reading accepts it.
pub proof fn bind_round_trip<I, Rf, Wf>(read: BindReader<Rf, I>, write: BindWriter<Wf, I>) where
    I: DeepView + PartialEq,
    Rf: ReadFn<I>,
    Wf: WriteFn<I>,

    requires
        read.expected() == write.value(),
        round_trip(read.inner(), write.inner(), write.value()),
    ensures
        round_trip(read, write, ()),
{
}

/// A truth value comes back as written, if the value that stands for it
/// does and the two values that stand for `true` and `false` differ.
pub proof fn boolean_round_trip<I, Rf, Wf>(read: Boolean<Rf, I>, write: Boolean<Wf, I>, v: bool) where
    I: DeepView + PartialEq,
    Rf: ReadFn<I>,
    Wf: WriteFn<I>,

    requires
        read.true_val() == write.true_val(),
        read.false_val() == write.false_val(),
        read.true_val() != read.false_val(),
        round_trip(read.inner(), write.inner(), write.true_val()),
        round_trip(read.inner(), write.inner(), write.false_val()),
    ensures
        round_trip(read, write, v),
{
}

/// Reading, under the key, the bytes that `w` writes for `v` under the key,
/// whatever follows them, gives `v` and takes exactly those bytes.
pub open spec fn round_trip_with<K, I, Fr, Fw>(r: Fr, w: Fw, key: K::V, v: I::V) -> bool where
    K: DeepView,
    I: DeepView,
    Fr: ReadWith<K, I>,
    Fw: WriteWith<K, I>,
 {
    w.spec_write_with(key, v).result is Ok ==> forall|rest: Seq<u8>|
        #[trigger] r.spec_read_with(key, w.spec_write_with(key, v).bytes + rest) == (Decoded {
            result: Ok::<I::V, BinError>(v),
            used: w.spec_write_with(key, v).bytes.len(),
        })
}

/// A key and the field that depends on it come back as written, if the key
/// does, and the field does under the key.
pub proof fn bound_round_trip<K, I, Ra, Wa, Fr, Fw>(
    read: Bound<Ra, Fr>,
    write: Bound<Wa, Fw>,
    key: K::V,
    v: I::V,
) where
    K: DeepView,
    I: DeepView,
    Ra: ReadFn<K>,
    Wa: WriteFn<K>,
    Fr: ReadWith<K, I>,
    Fw: WriteWith<K, I>,

    requires
        round_trip(read.key, write.key, key),
        round_trip_with(read.value, write.value, key, v),
    ensures
        round_trip(read, write, (key, v)),
{
    let written = write.spec_write((key, v));
    if written.result is Ok {
        let head = write.key.spec_write(key).bytes;
        let tail = write.value.spec_write_with(key, v).bytes;
        assert forall|rest: Seq<u8>| #[trigger]
            read.spec_read(written.bytes + rest) == (Decoded {
                result: Ok::<(K::V, I::V), BinError>((key, v)),
                used: written.bytes.len(),
            }) by {
            let input = written.bytes + rest;
            assert(input =~= head + (tail + rest));
            assert(input.skip(head.len() as int) =~= tail + rest);
        }
    }
}

/// Two fields in a row that depend on one key come back as written under
/// the key, if each does.
pub proof fn pair_round_trip_with<K, I, J, Ra, Wa, Rb, Wb>(
    read: Pair<Ra, Rb>,
    write: Pair<Wa, Wb>,
    key: K::V,
    x: I::V,
    y: J::V,
) where
    K: DeepView,
    I: DeepView,
    J: DeepView,
    Ra: ReadWith<K, I>,
    Wa: WriteWith<K, I>,
    Rb: ReadWith<K, J>,
    Wb: WriteWith<K, J>,

    requires
        round_trip_with(read.first, write.first, key, x),
        round_trip_with(read.second, write.second, key, y),
    ensures
        round_trip_with::<K, (I, J), Pair<Ra, Rb>, Pair<Wa, Wb>>(read, write, key, (x, y)),
{
    let written = write.spec_write_with(key, (x, y));
    if written.result is Ok {
        let head = write.first.spec_write_with(key, x).bytes;
        let tail = write.second.spec_write_with(key, y).bytes;
        assert forall|rest: Seq<u8>| #[trigger]
            read.spec_read_with(key, written.bytes + rest) == (Decoded {
                result: Ok::<(I::V, J::V), BinError>((x, y)),
                used: written.bytes.len(),
            }) by {
            let input = written.bytes + rest;
            assert(input =~= head + (tail + rest));
            assert(input.skip(head.len() as int) =~= tail + rest);
        }
    }
}

/// A field behind a field of no value comes back as written, if both do.
pub proof fn prefixed_round_trip<I, Ra, Wa, Rb, Wb>(
    read: Prefixed<Ra, Rb>,
    write: Prefixed<Wa, Wb>,
    v: I::V,
) where I: DeepView, Ra: ReadFn<()>, Wa: WriteFn<()>, Rb: ReadFn<I>, Wb: WriteFn<I>
    requires
        round_trip(read.prefix, write.prefix, ()),
        round_trip(read.field, write.field, v),
    ensures
        round_trip(read, write, v),
{
    let written = write.spec_write(v);
    if written.result is Ok {
        let head = write.prefix.spec_write(()).bytes;
        let tail = write.field.spec_write(v).bytes;
        assert forall|rest: Seq<u8>| #[trigger]
            read.spec_read(written.bytes + rest) == (Decoded {
                result: Ok::<I::V, BinError>(v),
                used: written.bytes.len(),
            }) by {
            let input = written.bytes + rest;
            assert(input =~= head + (tail + rest));
            assert(input.skip(head.len() as int) =~= tail + rest);
        }
    }
}

/// A field before a field of no value comes back as written, if both do.
pub proof fn suffixed_round_trip<I, Ra, Wa, Rb, Wb>(
    read: Suffixed<Ra, Rb>,
    write: Suffixed<Wa, Wb>,
    v: I::V,
) where I: DeepView, Ra: ReadFn<I>, Wa: WriteFn<I>, Rb: ReadFn<()>, Wb: WriteFn<()>
    requires
        round_trip(read.field, write.field, v),
        round_trip(read.suffix, write.suffix, ()),
    ensures
        round_trip(read, write, v),
{
    let written = write.spec_write(v);
    if written.result is Ok {
        let head = write.field.spec_write(v).bytes;
        let tail = write.suffix.spec_write(()).bytes;
        assert forall|rest: Seq<u8>| #[trigger]
            read.spec_read(written.bytes + rest) == (Decoded {
                result: Ok::<I::V, BinError>(v),
                used: written.bytes.len(),
            }) by {
            let input = written.bytes + rest;
            assert(input =~= head + (tail + rest));
            assert(input.skip(head.len() as int) =~= tail + rest);
        }
    }
}

/// A skipped field comes back as written, if its value does: whatever is
/// read is dropped.
pub proof fn skip_round_trip<I, Rf, Wf>(read: SkipReader<Rf, I>, write: SkipWriter<Wf, I>) where
    I: DeepView,
    Rf: ReadFn<I>,
    Wf: WriteFn<I>,

    requires
        round_trip(read.inner, write.inner, write.value.deep_view()),
    ensures
        round_trip(read, write, ()),
{
}

/// A converted value comes back as written, if the value that stands for
/// it in the stream does and converts back to it.
pub proof fn cast_round_trip<I, O, Rf, Wf>(read: Cast<Rf, I, O>, write: Cast<Wf, I, O>, v: I::V) where
    I: DeepView + Clone,
    O: DeepView + From<I> + Into<I>,
    Rf: ReadFn<O>,
    Wf: WriteFn<O>,

    requires
        model_into::<O, I>(model_from::<I, O>(v)) == v,
        round_trip(read.inner(), write.inner(), model_from::<I, O>(v)),
    ensures
        round_trip(read, write, v),
{
}

/// A value whose conversion may fail comes back as written, if the value
/// that stands for it in the stream does and converts back to it.
pub proof fn try_cast_round_trip<I, O, Rf, Wf>(
    read: TryCast<Rf, I, O>,
    write: TryCast<Wf, I, O>,
    v: I::V,
) where
    I: DeepView + Clone,
    O: DeepView + TryFrom<I> + TryInto<I>,
    Rf: ReadFn<O>,
    Wf: WriteFn<O>,

    requires
        model_try_from::<I, O>(v) matches Some(o) && model_try_into::<O, I>(o) == Some(v)
            && round_trip(read.inner(), write.inner(), o),
    ensures
        round_trip(read, write, v),
{
}

/// A codec that ignores the key brings a value back under any key, if it
/// brings it back at all.
pub proof fn keyless_round_trip<K, I, Rf, Wf>(
    read: Keyless<Rf>,
    write: Keyless<Wf>,
    key: K::V,
    v: I::V,
) where K: DeepView, I: DeepView, Rf: ReadFn<I>, Wf: WriteFn<I>
    requires
        round_trip(read.inner, write.inner, v),
    ensures
        round_trip_with::<K, I, Keyless<Rf>, Keyless<Wf>>(read, write, key, v),
{
}

/// As many values as the key says come back as written under the key, if
/// each of them does.
pub proof fn count_by_round_trip<K, I, Rf, Wf>(
    read: CountBy<Rf>,
    write: CountBy<Wf>,
    key: K::V,
    values: Seq<I::V>,
) where K: Length, I: DeepView, Rf: ReadFn<I>, Wf: WriteFn<I>
    requires
        values.len() == K::length(key),
        forall|j: int|
            0 <= j < values.len() ==> round_trip(read.inner, write.inner, #[trigger] values[j]),
    ensures
        round_trip_with::<K, Vec<I>, CountBy<Rf>, CountBy<Wf>>(read, write, key, values),
{
    let written = write_each(write.inner, values);
    if written.result is Ok {
        assert(values.take(values.len() as int) =~= values);
        assert forall|rest: Seq<u8>| #[trigger]
            read_count(read.inner, values.len(), written.bytes + rest) == (Decoded {
                result: Ok::<Seq<I::V>, BinError>(values),
                used: written.bytes.len(),
            }) by {
            lemma_count_prefix(read.inner, write.inner, values, values.len(), rest);
        }
    }
}

/// A value that is there exactly when the key is `true` comes back as
/// written under the key, if the value does where it is there.
pub proof fn optional_by_round_trip<I, Rf, Wf>(
    read: OptionalBy<Rf>,
    write: OptionalBy<Wf>,
    key: bool,
    v: Option<I::V>,
) where I: DeepView, Rf: ReadFn<I>, Wf: WriteFn<I>
    requires
        key == (v is Some),
        v matches Some(x) ==> round_trip(read.inner, write.inner, x),
    ensures
        round_trip_with::<bool, Option<I>, OptionalBy<Rf>, OptionalBy<Wf>>(read, write, key, v),
{
    let written = write.spec_write_with(key, v);
    if written.result is Ok {
        assert forall|rest: Seq<u8>| #[trigger]
            read.spec_read_with(key, written.bytes + rest) == (Decoded {
                result: Ok::<Option<I::V>, BinError>(v),
                used: written.bytes.len(),
            }) by {
            match v {
                Some(x) => {},
                None => {},
            }
        }
    }
}

} // verus!
