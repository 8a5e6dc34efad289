//! Codecs of the fixed-width integers, in either byte order.
//!
//! A number of `width` bytes is read by taking exactly `width` bytes from the
//! source; any bit pattern is a value. The byte order is a field of the
//! codec, so one codec type serves both orders.

use vstd::prelude::*;
use byteorder::{BigEndian, ByteOrder, LittleEndian};
use crate::error::BinError;
use crate::stream::{take_exact, Decoded, Encoded, Sink, Source};
use crate::{ReadFn, WriteFn};

verus! {

/// The order in which the bytes of a number stand in a stream.
#[derive(Clone, Copy, Debug, PartialEq, Eq, Structural)]
pub enum Endian {
    /// The most significant byte first.
    Big,
    /// The least significant byte first.
    Little,
}

/// The number of values that `width` bytes can spell: 256 to the power
/// `width`.
pub open spec fn modulus(width: nat) -> nat
    decreases width,
{
    if width == 0 {
        1
    } else {
        256 * modulus((width - 1) as nat)
    }
}

/// The number that the bytes of `b` spell in base 256, the most significant
/// byte first.
pub open spec fn be_nat(b: Seq<u8>) -> nat
    decreases b.len(),
{
    if b.len() == 0 {
        0
    } else {
        be_nat(b.drop_last()) * 256 + b.last() as nat
    }
}

/// The number that the bytes of `b` spell in base 256, the least significant
/// byte first.
pub open spec fn le_nat(b: Seq<u8>) -> nat
    decreases b.len(),
{
    if b.len() == 0 {
        0
    } else {
        b.first() as nat + 256 * le_nat(b.drop_first())
    }
}

/// The `width` bytes that spell `n`, the most significant byte first.
pub open spec fn be_bytes(n: nat, width: nat) -> Seq<u8>
    decreases width,
{
    if width == 0 {
        Seq::empty()
    } else {
        be_bytes(n / 256, (width - 1) as nat).push((n % 256) as u8)
    }
}

/// The `width` bytes that spell `n`, the least significant byte first.
pub open spec fn le_bytes(n: nat, width: nat) -> Seq<u8>
    decreases width,
{
    if width == 0 {
        Seq::empty()
    } else {
        seq![(n % 256) as u8] + le_bytes(n / 256, (width - 1) as nat)
    }
}

/// The number that `b` spells in the given byte order.
pub open spec fn value_of(b: Seq<u8>, order: Endian) -> nat {
    match order {
        Endian::Big => be_nat(b),
        Endian::Little => le_nat(b),
    }
}

/// The `width` bytes that spell `n` in the given byte order.
pub open spec fn bytes_of(n: nat, width: nat, order: Endian) -> Seq<u8> {
    match order {
        Endian::Big => be_bytes(n, width),
        Endian::Little => le_bytes(n, width),
    }
}

/// The signed number whose two's complement representation in `width` bytes
/// is the unsigned number `n`.
pub open spec fn signed(n: nat, width: nat) -> int {
    if 2 * n < modulus(width) {
        n as int
    } else {
        n - modulus(width)
    }
}

/// The unsigned number that represents `v` in two's complement on `width`
/// bytes.
pub open spec fn unsigned(v: int, width: nat) -> nat {
    if v >= 0 {
        v as nat
    } else {
        (v + modulus(width)) as nat
    }
}

/// What reading an unsigned number of `width` bytes from `input` gives.
pub open spec fn read_unsigned(input: Seq<u8>, width: nat, order: Endian) -> Decoded<nat> {
    let taken = take_exact(input, width);
    Decoded {
        result: match taken.result {
            Ok(b) => Ok(value_of(b, order)),
            Err(e) => Err(e),
        },
        used: taken.used,
    }
}

/// What reading a signed number of `width` bytes from `input` gives.
pub open spec fn read_signed(input: Seq<u8>, width: nat, order: Endian) -> Decoded<int> {
    let taken = take_exact(input, width);
    Decoded {
        result: match taken.result {
            Ok(b) => Ok(signed(value_of(b, order), width)),
            Err(e) => Err(e),
        },
        used: taken.used,
    }
}

/// The numbers that `width` bytes spell are below `modulus(width)`.
pub proof fn lemma_value_bound(b: Seq<u8>, order: Endian)
    ensures
        value_of(b, order) < modulus(b.len()),
    decreases b.len(),
{
    if b.len() > 0 {
        lemma_value_bound(b.drop_last(), order);
        lemma_value_bound(b.drop_first(), order);
    }
}

/// The bytes that spell a number spell that number, in either order.
pub proof fn lemma_value_of_bytes(n: nat, width: nat, order: Endian)
    requires
        n < modulus(width),
    ensures
        bytes_of(n, width, order).len() == width,
        value_of(bytes_of(n, width, order), order) == n,
    decreases width,
{
    if width > 0 {
        let rest = (width - 1) as nat;
        lemma_value_of_bytes(n / 256, rest, order);
        match order {
            Endian::Big => {
                assert(be_bytes(n, width).drop_last() =~= be_bytes(n / 256, rest));
            },
            Endian::Little => {
                assert(le_bytes(n, width).drop_first() =~= le_bytes(n / 256, rest));
            },
        }
    }
}

/// The number that some bytes spell is spelt by those bytes, in either order.
pub proof fn lemma_bytes_of_value(b: Seq<u8>, order: Endian)
    ensures
        bytes_of(value_of(b, order), b.len(), order) == b,
    decreases b.len(),
{
    if b.len() > 0 {
        match order {
            Endian::Big => {
                lemma_bytes_of_value(b.drop_last(), order);
            },
            Endian::Little => {
                lemma_bytes_of_value(b.drop_first(), order);
            },
        }
    } else {
    }
}

/// Two's complement loses nothing: a signed number of `width` bytes comes
/// back from the unsigned number that represents it.
pub proof fn lemma_signed_of_unsigned(v: int, width: nat)
    requires
        width > 0,
        -modulus(width) <= 2 * v < modulus(width),
    ensures
        unsigned(v, width) < modulus(width),
        signed(unsigned(v, width), width) == v,
{
}

/// An unsigned number of `width` bytes comes back from the signed number
/// that it represents.
pub proof fn lemma_unsigned_of_signed(n: nat, width: nat)
    requires
        width > 0,
        n < modulus(width),
    ensures
        -modulus(width) <= 2 * signed(n, width) < modulus(width),
        unsigned(signed(n, width), width) == n,
{
}

/// The two byte orders mirror each other: the byte at a place from the
/// front in the one stands at that place from the back in the other.
pub proof fn lemma_orders_mirror(n: nat, width: nat, j: int)
    requires
        0 <= j < width,
    ensures
        be_bytes(n, width).len() == width,
        le_bytes(n, width).len() == width,
        be_bytes(n, width)[j] == le_bytes(n, width)[width - 1 - j],
    decreases width,
{
    lemma_bytes_len(n, width);
    let rest = (width - 1) as nat;
    lemma_bytes_len(n / 256, rest);
    if j < width - 1 {
        lemma_orders_mirror(n / 256, rest, j);
    }
}

/// A number of `width` bytes is written on `width` bytes.
pub proof fn lemma_bytes_len(n: nat, width: nat)
    ensures
        be_bytes(n, width).len() == width,
        le_bytes(n, width).len() == width,
    decreases width,
{
    if width > 0 {
        lemma_bytes_len(n / 256, (width - 1) as nat);
    }
}

/// The values of `modulus` at the widths of the machine's integers.
pub proof fn lemma_modulus_values()
    ensures
        modulus(1) == 0x100,
        modulus(2) == 0x1_0000,
        modulus(4) == 0x1_0000_0000,
        modulus(8) == 0x1_0000_0000_0000_0000,
{
    reveal_with_fuel(modulus, 9);
}

/// The call `BigEndian::read_u16` of `byteorder`: the number that the first 2
/// bytes of `buf` spell, the most significant byte first. The call panics on a
/// shorter `buf`.
#[verifier::external_body]
pub(crate) fn read_u16_be(buf: &[u8]) -> (n: u16)
    requires
        buf@.len() >= 2,
    ensures
        n as nat == be_nat(buf@.take(2)),
{
    BigEndian::read_u16(buf)
}

/// The call `BigEndian::read_i16` of `byteorder`: the number that the first 2
/// bytes of `buf` spell, the most significant byte first, taken as two's
/// complement. The call panics on a shorter `buf`.
#[verifier::external_body]
fn read_i16_be(buf: &[u8]) -> (n: i16)
    requires
        buf@.len() >= 2,
    ensures
        n as int == signed(be_nat(buf@.take(2)), 2),
{
    BigEndian::read_i16(buf)
}

/// The call `BigEndian::write_u16` of `byteorder` on a buffer of 2 bytes: the
/// bytes that spell `n`, the most significant byte first.
#[verifier::external_body]
pub(crate) fn write_u16_be(n: u16) -> (buf: [u8; 2])
    ensures
        buf@ == be_bytes(n as nat, 2),
{
    let mut buf = [0u8; 2];
    BigEndian::write_u16(&mut buf, n);
    buf
}

/// The call `BigEndian::write_i16` of `byteorder` on a buffer of 2 bytes: the
/// bytes that spell the two's complement of `n`, the most significant byte
/// first.
#[verifier::external_body]
fn write_i16_be(n: i16) -> (buf: [u8; 2])
    ensures
        buf@ == be_bytes(unsigned(n as int, 2), 2),
{
    let mut buf = [0u8; 2];
    BigEndian::write_i16(&mut buf, n);
    buf
}

/// The call `LittleEndian::read_u16` of `byteorder`: the number that the first
/// 2 bytes of `buf` spell, the least significant byte first. The call panics on
/// a shorter `buf`.
#[verifier::external_body]
fn read_u16_le(buf: &[u8]) -> (n: u16)
    requires
        buf@.len() >= 2,
    ensures
        n as nat == le_nat(buf@.take(2)),
{
    LittleEndian::read_u16(buf)
}

/// The call `LittleEndian::read_i16` of `byteorder`: the number that the first
/// 2 bytes of `buf` spell, the least significant byte first, taken as two's
/// complement. The call panics on a shorter `buf`.
#[verifier::external_body]
fn read_i16_le(buf: &[u8]) -> (n: i16)
    requires
        buf@.len() >= 2,
    ensures
        n as int == signed(le_nat(buf@.take(2)), 2),
{
    LittleEndian::read_i16(buf)
}

/// The call `LittleEndian::write_u16` of `byteorder` on a buffer of 2 bytes:
/// the bytes that spell `n`, the least significant byte first.
#[verifier::external_body]
fn write_u16_le(n: u16) -> (buf: [u8; 2])
    ensures
        buf@ == le_bytes(n as nat, 2),
{
    let mut buf = [0u8; 2];
    LittleEndian::write_u16(&mut buf, n);
    buf
}

/// The call `LittleEndian::write_i16` of `byteorder` on a buffer of 2 bytes:
/// the bytes that spell the two's complement of `n`, the least significant byte
/// first.
#[verifier::external_body]
fn write_i16_le(n: i16) -> (buf: [u8; 2])
    ensures
        buf@ == le_bytes(unsigned(n as int, 2), 2),
{
    let mut buf = [0u8; 2];
    LittleEndian::write_i16(&mut buf, n);
    buf
}

/// The call `BigEndian::read_u32` of `byteorder`: the number that the first 4
/// bytes of `buf` spell, the most significant byte first. The call panics on a
/// shorter `buf`.
#[verifier::external_body]
fn read_u32_be(buf: &[u8]) -> (n: u32)
    requires
        buf@.len() >= 4,
    ensures
        n as nat == be_nat(buf@.take(4)),
{
    BigEndian::read_u32(buf)
}

/// The call `BigEndian::read_i32` of `byteorder`: the number that the first 4
/// bytes of `buf` spell, the most significant byte first, taken as two's
/// complement. The call panics on a shorter `buf`.
#[verifier::external_body]
fn read_i32_be(buf: &[u8]) -> (n: i32)
    requires
        buf@.len() >= 4,
    ensures
        n as int == signed(be_nat(buf@.take(4)), 4),
{
    BigEndian::read_i32(buf)
}

/// The call `BigEndian::write_u32` of `byteorder` on a buffer of 4 bytes: the
/// bytes that spell `n`, the most significant byte first.
#[verifier::external_body]
fn write_u32_be(n: u32) -> (buf: [u8; 4])
    ensures
        buf@ == be_bytes(n as nat, 4),
{
    let mut buf = [0u8; 4];
    BigEndian::write_u32(&mut buf, n);
    buf
}

/// The call `BigEndian::write_i32` of `byteorder` on a buffer of 4 bytes: the
/// bytes that spell the two's complement of `n`, the most significant byte
/// first.
#[verifier::external_body]
fn write_i32_be(n: i32) -> (buf: [u8; 4])
    ensures
        buf@ == be_bytes(unsigned(n as int, 4), 4),
{
    let mut buf = [0u8; 4];
    BigEndian::write_i32(&mut buf, n);
    buf
}

/// The call `LittleEndian::read_u32` of `byteorder`: the number that the first
/// 4 bytes of `buf` spell, the least significant byte first. The call panics on
/// a shorter `buf`.
#[verifier::external_body]
fn read_u32_le(buf: &[u8]) -> (n: u32)
    requires
        buf@.len() >= 4,
    ensures
        n as nat == le_nat(buf@.take(4)),
{
    LittleEndian::read_u32(buf)
}

/// The call `LittleEndian::read_i32` of `byteorder`: the number that the first
/// 4 bytes of `buf` spell, the least significant byte first, taken as two's
/// complement. The call panics on a shorter `buf`.
#[verifier::external_body]
fn read_i32_le(buf: &[u8]) -> (n: i32)
    requires
        buf@.len() >= 4,
    ensures
        n as int == signed(le_nat(buf@.take(4)), 4),
{
    LittleEndian::read_i32(buf)
}

/// The call `LittleEndian::write_u32` of `byteorder` on a buffer of 4 bytes:
/// the bytes that spell `n`, the least significant byte first.
#[verifier::external_body]
fn write_u32_le(n: u32) -> (buf: [u8; 4])
    ensures
        buf@ == le_bytes(n as nat, 4),
{
    let mut buf = [0u8; 4];
    LittleEndian::write_u32(&mut buf, n);
    buf
}

/// The call `LittleEndian::write_i32` of `byteorder` on a buffer of 4 bytes:
/// the bytes that spell the two's complement of `n`, the least significant byte
/// first.
#[verifier::external_body]
fn write_i32_le(n: i32) -> (buf: [u8; 4])
    ensures
        buf@ == le_bytes(unsigned(n as int, 4), 4),
{
    let mut buf = [0u8; 4];
    LittleEndian::write_i32(&mut buf, n);
    buf
}

/// The call `BigEndian::read_u64` of `byteorder`: the number that the first 8
/// bytes of `buf` spell, the most significant byte first. The call panics on a
/// shorter `buf`.
#[verifier::external_body]
fn read_u64_be(buf: &[u8]) -> (n: u64)
    requires
        buf@.len() >= 8,
    ensures
        n as nat == be_nat(buf@.take(8)),
{
    BigEndian::read_u64(buf)
}

/// The call `BigEndian::read_i64` of `byteorder`: the number that the first 8
/// bytes of `buf` spell, the most significant byte first, taken as two's
/// complement. The call panics on a shorter `buf`.
#[verifier::external_body]
fn read_i64_be(buf: &[u8]) -> (n: i64)
    requires
        buf@.len() >= 8,
    ensures
        n as int == signed(be_nat(buf@.take(8)), 8),
{
    BigEndian::read_i64(buf)
}

/// The call `BigEndian::write_u64` of `byteorder` on a buffer of 8 bytes: the
/// bytes that spell `n`, the most significant byte first.
#[verifier::external_body]
fn write_u64_be(n: u64) -> (buf: [u8; 8])
    ensures
        buf@ == be_bytes(n as nat, 8),
{
    let mut buf = [0u8; 8];
    BigEndian::write_u64(&mut buf, n);
    buf
}

/// The call `BigEndian::write_i64` of `byteorder` on a buffer of 8 bytes: the
/// bytes that spell the two's complement of `n`, the most significant byte
/// first.
#[verifier::external_body]
fn write_i64_be(n: i64) -> (buf: [u8; 8])
    ensures
        buf@ == be_bytes(unsigned(n as int, 8), 8),
{
    let mut buf = [0u8; 8];
    BigEndian::write_i64(&mut buf, n);
    buf
}

/// The call `LittleEndian::read_u64` of `byteorder`: the number that the first
/// 8 bytes of `buf` spell, the least significant byte first. The call panics on
/// a shorter `buf`.
#[verifier::external_body]
fn read_u64_le(buf: &[u8]) -> (n: u64)
    requires
        buf@.len() >= 8,
    ensures
        n as nat == le_nat(buf@.take(8)),
{
    LittleEndian::read_u64(buf)
}

/// The call `LittleEndian::read_i64` of `byteorder`: the number that the first
/// 8 bytes of `buf` spell, the least significant byte first, taken as two's
/// complement. The call panics on a shorter `buf`.
#[verifier::external_body]
fn read_i64_le(buf: &[u8]) -> (n: i64)
    requires
        buf@.len() >= 8,
    ensures
        n as int == signed(le_nat(buf@.take(8)), 8),
{
    LittleEndian::read_i64(buf)
}

/// The call `LittleEndian::write_u64` of `byteorder` on a buffer of 8 bytes:
/// the bytes that spell `n`, the least significant byte first.
#[verifier::external_body]
fn write_u64_le(n: u64) -> (buf: [u8; 8])
    ensures
        buf@ == le_bytes(n as nat, 8),
{
    let mut buf = [0u8; 8];
    LittleEndian::write_u64(&mut buf, n);
    buf
}

/// The call `LittleEndian::write_i64` of `byteorder` on a buffer of 8 bytes:
/// the bytes that spell the two's complement of `n`, the least significant byte
/// first.
#[verifier::external_body]
fn write_i64_le(n: i64) -> (buf: [u8; 8])
    ensures
        buf@ == le_bytes(unsigned(n as int, 8), 8),
{
    let mut buf = [0u8; 8];
    LittleEndian::write_i64(&mut buf, n);
    buf
}

/// The codec of an unsigned number of one byte.
#[derive(Clone, Copy, Debug)]
pub struct U8Codec;

/// The codec of a signed number of one byte.
#[derive(Clone, Copy, Debug)]
pub struct I8Codec;

impl ReadFn<u8> for U8Codec {
    open spec fn spec_read(&self, input: Seq<u8>) -> Decoded<u8> {
        let taken = take_exact(input, 1);
        Decoded {
            result: match taken.result {
                Ok(b) => Ok(b[0]),
                Err(e) => Err(e),
            },
            used: taken.used,
        }
    }

    fn read(&self, r: &mut Source) -> (res: Result<u8, BinError>) {
        match r.take(1) {
            Ok(buf) => Ok(buf[0]),
            Err(e) => Err(e),
        }
    }
}

impl WriteFn<u8> for U8Codec {
    open spec fn accepts(&self, v: u8) -> bool {
        true
    }

    open spec fn spec_write(&self, v: u8) -> Encoded {
        Encoded { bytes: seq![v], result: Ok(()) }
    }

    fn fits(&self, i: &u8) -> (b: bool) {
        true
    }

    fn write(&self, w: &mut Sink, i: &u8) -> (res: Result<(), BinError>) {
        w.write_u8(*i);
        Ok(())
    }
}

impl ReadFn<i8> for I8Codec {
    open spec fn spec_read(&self, input: Seq<u8>) -> Decoded<i8> {
        let taken = take_exact(input, 1);
        Decoded {
            result: match taken.result {
                Ok(b) => Ok(signed(b[0] as nat, 1) as i8),
                Err(e) => Err(e),
            },
            used: taken.used,
        }
    }

    fn read(&self, r: &mut Source) -> (res: Result<i8, BinError>) {
        match r.take(1) {
            Ok(buf) => {
                proof {
                    lemma_modulus_values();
                }
                let b: u8 = buf[0];
                let v: i8 = if b < 128 {
                    b as i8
                } else {
                    (b as i16 - 256) as i8
                };
                Ok(v)
            },
            Err(e) => Err(e),
        }
    }
}

impl WriteFn<i8> for I8Codec {
    open spec fn accepts(&self, v: i8) -> bool {
        true
    }

    open spec fn spec_write(&self, v: i8) -> Encoded {
        Encoded { bytes: seq![unsigned(v as int, 1) as u8], result: Ok(()) }
    }

    fn fits(&self, i: &i8) -> (b: bool) {
        true
    }

    fn write(&self, w: &mut Sink, i: &i8) -> (res: Result<(), BinError>) {
        proof {
            lemma_modulus_values();
        }
        let b: u8 = if *i >= 0 {
            *i as u8
        } else {
            (*i as i16 + 256) as u8
        };
        w.write_u8(b);
        Ok(())
    }
}

/// The codec of an unsigned number of 2 bytes.
#[derive(Clone, Copy, Debug)]
pub struct U16Codec {
    pub order: Endian,
}

impl ReadFn<u16> for U16Codec {
    open spec fn spec_read(&self, input: Seq<u8>) -> Decoded<u16> {
        let read = read_unsigned(input, 2, self.order);
        Decoded {
            result: match read.result {
                Ok(n) => Ok(n as u16),
                Err(e) => Err(e),
            },
            used: read.used,
        }
    }

    fn read(&self, r: &mut Source) -> (res: Result<u16, BinError>) {
        match r.take(2) {
            Ok(buf) => {
                assert(buf@.take(2) == buf@);
                Ok(
                    match self.order {
                        Endian::Big => read_u16_be(buf),
                        Endian::Little => read_u16_le(buf),
                    },
                )
            },
            Err(e) => Err(e),
        }
    }
}

impl WriteFn<u16> for U16Codec {
    open spec fn accepts(&self, v: u16) -> bool {
        true
    }

    open spec fn spec_write(&self, v: u16) -> Encoded {
        Encoded { bytes: bytes_of(v as nat, 2, self.order), result: Ok(()) }
    }

    fn fits(&self, i: &u16) -> (b: bool) {
        true
    }

    fn write(&self, w: &mut Sink, i: &u16) -> (res: Result<(), BinError>) {
        let buf = match self.order {
            Endian::Big => write_u16_be(*i),
            Endian::Little => write_u16_le(*i),
        };
        w.write_all(buf.as_slice());
        Ok(())
    }
}

/// The codec of a signed number of 2 bytes.
#[derive(Clone, Copy, Debug)]
pub struct I16Codec {
    pub order: Endian,
}

impl ReadFn<i16> for I16Codec {
    open spec fn spec_read(&self, input: Seq<u8>) -> Decoded<i16> {
        let read = read_signed(input, 2, self.order);
        Decoded {
            result: match read.result {
                Ok(n) => Ok(n as i16),
                Err(e) => Err(e),
            },
            used: read.used,
        }
    }

    fn read(&self, r: &mut Source) -> (res: Result<i16, BinError>) {
        match r.take(2) {
            Ok(buf) => {
                assert(buf@.take(2) == buf@);
                Ok(
                    match self.order {
                        Endian::Big => read_i16_be(buf),
                        Endian::Little => read_i16_le(buf),
                    },
                )
            },
            Err(e) => Err(e),
        }
    }
}

impl WriteFn<i16> for I16Codec {
    open spec fn accepts(&self, v: i16) -> bool {
        true
    }

    open spec fn spec_write(&self, v: i16) -> Encoded {
        Encoded { bytes: bytes_of(unsigned(v as int, 2), 2, self.order), result: Ok(()) }
    }

    fn fits(&self, i: &i16) -> (b: bool) {
        true
    }

    fn write(&self, w: &mut Sink, i: &i16) -> (res: Result<(), BinError>) {
        let buf = match self.order {
            Endian::Big => write_i16_be(*i),
            Endian::Little => write_i16_le(*i),
        };
        w.write_all(buf.as_slice());
        Ok(())
    }
}

/// The codec of an unsigned number of 4 bytes.
#[derive(Clone, Copy, Debug)]
pub struct U32Codec {
    pub order: Endian,
}

impl ReadFn<u32> for U32Codec {
    open spec fn spec_read(&self, input: Seq<u8>) -> Decoded<u32> {
        let read = read_unsigned(input, 4, self.order);
        Decoded {
            result: match read.result {
                Ok(n) => Ok(n as u32),
                Err(e) => Err(e),
            },
            used: read.used,
        }
    }

    fn read(&self, r: &mut Source) -> (res: Result<u32, BinError>) {
        match r.take(4) {
            Ok(buf) => {
                assert(buf@.take(4) == buf@);
                Ok(
                    match self.order {
                        Endian::Big => read_u32_be(buf),
                        Endian::Little => read_u32_le(buf),
                    },
                )
            },
            Err(e) => Err(e),
        }
    }
}

impl WriteFn<u32> for U32Codec {
    open spec fn accepts(&self, v: u32) -> bool {
        true
    }

    open spec fn spec_write(&self, v: u32) -> Encoded {
        Encoded { bytes: bytes_of(v as nat, 4, self.order), result: Ok(()) }
    }

    fn fits(&self, i: &u32) -> (b: bool) {
        true
    }

    fn write(&self, w: &mut Sink, i: &u32) -> (res: Result<(), BinError>) {
        let buf = match self.order {
            Endian::Big => write_u32_be(*i),
            Endian::Little => write_u32_le(*i),
        };
        w.write_all(buf.as_slice());
        Ok(())
    }
}

/// The codec of a signed number of 4 bytes.
#[derive(Clone, Copy, Debug)]
pub struct I32Codec {
    pub order: Endian,
}

impl ReadFn<i32> for I32Codec {
    open spec fn spec_read(&self, input: Seq<u8>) -> Decoded<i32> {
        let read = read_signed(input, 4, self.order);
        Decoded {
            result: match read.result {
                Ok(n) => Ok(n as i32),
                Err(e) => Err(e),
            },
            used: read.used,
        }
    }

    fn read(&self, r: &mut Source) -> (res: Result<i32, BinError>) {
        match r.take(4) {
            Ok(buf) => {
                assert(buf@.take(4) == buf@);
                Ok(
                    match self.order {
                        Endian::Big => read_i32_be(buf),
                        Endian::Little => read_i32_le(buf),
                    },
                )
            },
            Err(e) => Err(e),
        }
    }
}

impl WriteFn<i32> for I32Codec {
    open spec fn accepts(&self, v: i32) -> bool {
        true
    }

    open spec fn spec_write(&self, v: i32) -> Encoded {
        Encoded { bytes: bytes_of(unsigned(v as int, 4), 4, self.order), result: Ok(()) }
    }

    fn fits(&self, i: &i32) -> (b: bool) {
        true
    }

    fn write(&self, w: &mut Sink, i: &i32) -> (res: Result<(), BinError>) {
        let buf = match self.order {
            Endian::Big => write_i32_be(*i),
            Endian::Little => write_i32_le(*i),
        };
        w.write_all(buf.as_slice());
        Ok(())
    }
}

/// The codec of an unsigned number of 8 bytes.
#[derive(Clone, Copy, Debug)]
pub struct U64Codec {
    pub order: Endian,
}

impl ReadFn<u64> for U64Codec {
    open spec fn spec_read(&self, input: Seq<u8>) -> Decoded<u64> {
        let read = read_unsigned(input, 8, self.order);
        Decoded {
            result: match read.result {
                Ok(n) => Ok(n as u64),
                Err(e) => Err(e),
            },
            used: read.used,
        }
    }

    fn read(&self, r: &mut Source) -> (res: Result<u64, BinError>) {
        match r.take(8) {
            Ok(buf) => {
                assert(buf@.take(8) == buf@);
                Ok(
                    match self.order {
                        Endian::Big => read_u64_be(buf),
                        Endian::Little => read_u64_le(buf),
                    },
                )
            },
            Err(e) => Err(e),
        }
    }
}

impl WriteFn<u64> for U64Codec {
    open spec fn accepts(&self, v: u64) -> bool {
        true
    }

    open spec fn spec_write(&self, v: u64) -> Encoded {
        Encoded { bytes: bytes_of(v as nat, 8, self.order), result: Ok(()) }
    }

    fn fits(&self, i: &u64) -> (b: bool) {
        true
    }

    fn write(&self, w: &mut Sink, i: &u64) -> (res: Result<(), BinError>) {
        let buf = match self.order {
            Endian::Big => write_u64_be(*i),
            Endian::Little => write_u64_le(*i),
        };
        w.write_all(buf.as_slice());
        Ok(())
    }
}

/// The codec of a signed number of 8 bytes.
#[derive(Clone, Copy, Debug)]
pub struct I64Codec {
    pub order: Endian,
}

impl ReadFn<i64> for I64Codec {
    open spec fn spec_read(&self, input: Seq<u8>) -> Decoded<i64> {
        let read = read_signed(input, 8, self.order);
        Decoded {
            result: match read.result {
                Ok(n) => Ok(n as i64),
                Err(e) => Err(e),
            },
            used: read.used,
        }
    }

    fn read(&self, r: &mut Source) -> (res: Result<i64, BinError>) {
        match r.take(8) {
            Ok(buf) => {
                assert(buf@.take(8) == buf@);
                Ok(
                    match self.order {
                        Endian::Big => read_i64_be(buf),
                        Endian::Little => read_i64_le(buf),
                    },
                )
            },
            Err(e) => Err(e),
        }
    }
}

impl WriteFn<i64> for I64Codec {
    open spec fn accepts(&self, v: i64) -> bool {
        true
    }

    open spec fn spec_write(&self, v: i64) -> Encoded {
        Encoded { bytes: bytes_of(unsigned(v as int, 8), 8, self.order), result: Ok(()) }
    }

    fn fits(&self, i: &i64) -> (b: bool) {
        true
    }

    fn write(&self, w: &mut Sink, i: &i64) -> (res: Result<(), BinError>) {
        let buf = match self.order {
            Endian::Big => write_i64_be(*i),
            Endian::Little => write_i64_le(*i),
        };
        w.write_all(buf.as_slice());
        Ok(())
    }
}

/// The codec of an unsigned byte.
pub fn be_u8() -> (c: (U8Codec, U8Codec))
    ensures
        c == (U8Codec, U8Codec),
{
    (U8Codec, U8Codec)
}

/// The codec of a signed byte.
pub fn be_i8() -> (c: (I8Codec, I8Codec))
    ensures
        c == (I8Codec, I8Codec),
{
    (I8Codec, I8Codec)
}

/// The codec of an unsigned byte; the same as [`be_u8`].
pub fn le_u8() -> (c: (U8Codec, U8Codec))
    ensures
        c == (U8Codec, U8Codec),
{
    (U8Codec, U8Codec)
}

/// The codec of a signed byte; the same as [`be_i8`].
pub fn le_i8() -> (c: (I8Codec, I8Codec))
    ensures
        c == (I8Codec, I8Codec),
{
    (I8Codec, I8Codec)
}

/// The codec of an unsigned big-endian number of 16 bits.
pub fn be_u16() -> (c: (U16Codec, U16Codec))
    ensures
        c.0.order == Endian::Big,
        c.1.order == Endian::Big,
{
    (U16Codec { order: Endian::Big }, U16Codec { order: Endian::Big })
}

/// The codec of a signed big-endian number of 16 bits.
pub fn be_i16() -> (c: (I16Codec, I16Codec))
    ensures
        c.0.order == Endian::Big,
        c.1.order == Endian::Big,
{
    (I16Codec { order: Endian::Big }, I16Codec { order: Endian::Big })
}

/// The codec of an unsigned little-endian number of 16 bits.
pub fn le_u16() -> (c: (U16Codec, U16Codec))
    ensures
        c.0.order == Endian::Little,
        c.1.order == Endian::Little,
{
    (U16Codec { order: Endian::Little }, U16Codec { order: Endian::Little })
}

/// The codec of a signed little-endian number of 16 bits.
pub fn le_i16() -> (c: (I16Codec, I16Codec))
    ensures
        c.0.order == Endian::Little,
        c.1.order == Endian::Little,
{
    (I16Codec { order: Endian::Little }, I16Codec { order: Endian::Little })
}

/// The codec of an unsigned big-endian number of 32 bits.
pub fn be_u32() -> (c: (U32Codec, U32Codec))
    ensures
        c.0.order == Endian::Big,
        c.1.order == Endian::Big,
{
    (U32Codec { order: Endian::Big }, U32Codec { order: Endian::Big })
}

/// The codec of a signed big-endian number of 32 bits.
pub fn be_i32() -> (c: (I32Codec, I32Codec))
    ensures
        c.0.order == Endian::Big,
        c.1.order == Endian::Big,
{
    (I32Codec { order: Endian::Big }, I32Codec { order: Endian::Big })
}

/// The codec of an unsigned little-endian number of 32 bits.
pub fn le_u32() -> (c: (U32Codec, U32Codec))
    ensures
        c.0.order == Endian::Little,
        c.1.order == Endian::Little,
{
    (U32Codec { order: Endian::Little }, U32Codec { order: Endian::Little })
}

/// The codec of a signed little-endian number of 32 bits.
pub fn le_i32() -> (c: (I32Codec, I32Codec))
    ensures
        c.0.order == Endian::Little,
        c.1.order == Endian::Little,
{
    (I32Codec { order: Endian::Little }, I32Codec { order: Endian::Little })
}

/// The codec of an unsigned big-endian number of 64 bits.
pub fn be_u64() -> (c: (U64Codec, U64Codec))
    ensures
        c.0.order == Endian::Big,
        c.1.order == Endian::Big,
{
    (U64Codec { order: Endian::Big }, U64Codec { order: Endian::Big })
}

/// The codec of a signed big-endian number of 64 bits.
pub fn be_i64() -> (c: (I64Codec, I64Codec))
    ensures
        c.0.order == Endian::Big,
        c.1.order == Endian::Big,
{
    (I64Codec { order: Endian::Big }, I64Codec { order: Endian::Big })
}

/// The codec of an unsigned little-endian number of 64 bits.
pub fn le_u64() -> (c: (U64Codec, U64Codec))
    ensures
        c.0.order == Endian::Little,
        c.1.order == Endian::Little,
{
    (U64Codec { order: Endian::Little }, U64Codec { order: Endian::Little })
}

/// The codec of a signed little-endian number of 64 bits.
pub fn le_i64() -> (c: (I64Codec, I64Codec))
    ensures
        c.0.order == Endian::Little,
        c.1.order == Endian::Little,
{
    (I64Codec { order: Endian::Little }, I64Codec { order: Endian::Little })
}

} // verus!
