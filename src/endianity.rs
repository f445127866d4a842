//! Byte orders, fixed at build time or chosen at run time.

use vstd::prelude::*;

verus! {

/// The unsigned value of `bytes` read least significant byte first.
pub open spec fn le_value(bytes: Seq<u8>) -> nat
    decreases bytes.len(),
{
    if bytes.len() == 0 {
        0
    } else {
        bytes[0] as nat + 256 * le_value(bytes.drop_first())
    }
}

/// The unsigned value of `bytes` read most significant byte first.
pub open spec fn be_value(bytes: Seq<u8>) -> nat
    decreases bytes.len(),
{
    if bytes.len() == 0 {
        0
    } else {
        be_value(bytes.drop_last()) * 256 + bytes.last() as nat
    }
}

/// The unsigned value of `bytes` in the given byte order.
pub open spec fn decode(big: bool, bytes: Seq<u8>) -> nat {
    if big {
        be_value(bytes)
    } else {
        le_value(bytes)
    }
}

/// `n`, an unsigned 16 bit value, read as two's complement.
pub open spec fn signed16(n: nat) -> i16 {
    #[verifier::truncate]
    (n as u16) as i16
}

/// `n`, an unsigned 32 bit value, read as two's complement.
pub open spec fn signed32(n: nat) -> i32 {
    #[verifier::truncate]
    (n as u32) as i32
}

/// `n`, an unsigned 64 bit value, read as two's complement.
pub open spec fn signed64(n: nat) -> i64 {
    #[verifier::truncate]
    (n as u64) as i64
}

/// Byte order that is selectable at runtime.
#[derive(Debug, Clone, Copy, PartialEq, Eq, Structural, Hash)]
pub enum RunTimeEndian {
    /// Little endian byte order.
    Little,
    /// Big endian byte order.
    Big,
}

/// Relies on byteorder's `BigEndian::read_u16`: the first two bytes, most significant first.
#[verifier::external_body]
fn be_read_u16(buf: &[u8]) -> (r: u16)
    requires
        buf@.len() >= 2,
    ensures
        r as nat == be_value(buf@.take(2)),
{
    <byteorder::BigEndian as byteorder::ByteOrder>::read_u16(buf)
}

/// Relies on byteorder's `LittleEndian::read_u16`: the first two bytes, least significant first.
#[verifier::external_body]
fn le_read_u16(buf: &[u8]) -> (r: u16)
    requires
        buf@.len() >= 2,
    ensures
        r as nat == le_value(buf@.take(2)),
{
    <byteorder::LittleEndian as byteorder::ByteOrder>::read_u16(buf)
}

/// Relies on byteorder's `BigEndian::read_u32`: the first four bytes, most significant first.
#[verifier::external_body]
fn be_read_u32(buf: &[u8]) -> (r: u32)
    requires
        buf@.len() >= 4,
    ensures
        r as nat == be_value(buf@.take(4)),
{
    <byteorder::BigEndian as byteorder::ByteOrder>::read_u32(buf)
}

/// Relies on byteorder's `LittleEndian::read_u32`: the first four bytes, least significant first.
#[verifier::external_body]
fn le_read_u32(buf: &[u8]) -> (r: u32)
    requires
        buf@.len() >= 4,
    ensures
        r as nat == le_value(buf@.take(4)),
{
    <byteorder::LittleEndian as byteorder::ByteOrder>::read_u32(buf)
}

/// Relies on byteorder's `BigEndian::read_u64`: the first eight bytes, most significant first.
#[verifier::external_body]
fn be_read_u64(buf: &[u8]) -> (r: u64)
    requires
        buf@.len() >= 8,
    ensures
        r as nat == be_value(buf@.take(8)),
{
    <byteorder::BigEndian as byteorder::ByteOrder>::read_u64(buf)
}

/// Relies on byteorder's `LittleEndian::read_u64`: the first eight bytes, least significant first.
#[verifier::external_body]
fn le_read_u64(buf: &[u8]) -> (r: u64)
    requires
        buf@.len() >= 8,
    ensures
        r as nat == le_value(buf@.take(8)),
{
    <byteorder::LittleEndian as byteorder::ByteOrder>::read_u64(buf)
}

/// Relies on byteorder's `BigEndian::write_u64`: `n` goes to the first eight bytes,
/// most significant first, and the other bytes are left alone.
#[verifier::external_body]
fn be_write_u64(buf: &mut [u8], n: u64)
    requires
        old(buf)@.len() >= 8,
    ensures
        final(buf)@.len() == old(buf)@.len(),
        be_value(final(buf)@.take(8)) == n as nat,
        final(buf)@.skip(8) == old(buf)@.skip(8),
{
    <byteorder::BigEndian as byteorder::ByteOrder>::write_u64(buf, n)
}

/// Relies on byteorder's `LittleEndian::write_u64`: `n` goes to the first eight bytes,
/// least significant first, and the other bytes are left alone.
#[verifier::external_body]
fn le_write_u64(buf: &mut [u8], n: u64)
    requires
        old(buf)@.len() >= 8,
    ensures
        final(buf)@.len() == old(buf)@.len(),
        le_value(final(buf)@.take(8)) == n as nat,
        final(buf)@.skip(8) == old(buf)@.skip(8),
{
    <byteorder::LittleEndian as byteorder::ByteOrder>::write_u64(buf, n)
}

/// A byte order: how the bytes of a multi-byte integer are laid out in a buffer.
pub trait Endianity: core::fmt::Debug + Default + Clone + Copy + PartialEq + Eq {
    /// Whether this is big endian (most significant byte first).
    spec fn is_big(&self) -> bool;

    /// Return true for big endian byte order.
    fn is_big_endian(self) -> (r: bool)
        ensures
            r == self.is_big(),
    ;

    /// Return true for little endian byte order.
    fn is_little_endian(self) -> (r: bool)
        ensures
            r == !self.is_big(),
    {
        !self.is_big_endian()
    }

    /// Reads an unsigned 16 bit integer from the first two bytes of `buf`.
    fn read_u16(self, buf: &[u8]) -> (r: u16)
        requires
            buf@.len() >= 2,
        ensures
            r as nat == decode(self.is_big(), buf@.take(2)),
    {
        if self.is_big_endian() {
            be_read_u16(buf)
        } else {
            le_read_u16(buf)
        }
    }

    /// Reads an unsigned 32 bit integer from the first four bytes of `buf`.
    fn read_u32(self, buf: &[u8]) -> (r: u32)
        requires
            buf@.len() >= 4,
        ensures
            r as nat == decode(self.is_big(), buf@.take(4)),
    {
        if self.is_big_endian() {
            be_read_u32(buf)
        } else {
            le_read_u32(buf)
        }
    }

    /// Reads an unsigned 64 bit integer from the first eight bytes of `buf`.
    fn read_u64(self, buf: &[u8]) -> (r: u64)
        requires
            buf@.len() >= 8,
        ensures
            r as nat == decode(self.is_big(), buf@.take(8)),
    {
        if self.is_big_endian() {
            be_read_u64(buf)
        } else {
            le_read_u64(buf)
        }
    }

    /// Reads a signed 16 bit integer: the bits of `read_u16`, as two's complement.
    fn read_i16(self, buf: &[u8]) -> (r: i16)
        requires
            buf@.len() >= 2,
        ensures
            r == signed16(decode(self.is_big(), buf@.take(2))),
    {
        self.read_u16(buf) as i16
    }

    /// Reads a signed 32 bit integer: the bits of `read_u32`, as two's complement.
    fn read_i32(self, buf: &[u8]) -> (r: i32)
        requires
            buf@.len() >= 4,
        ensures
            r == signed32(decode(self.is_big(), buf@.take(4))),
    {
        self.read_u32(buf) as i32
    }

    /// Reads a signed 64 bit integer: the bits of `read_u64`, as two's complement.
    fn read_i64(self, buf: &[u8]) -> (r: i64)
        requires
            buf@.len() >= 8,
        ensures
            r == signed64(decode(self.is_big(), buf@.take(8))),
    {
        self.read_u64(buf) as i64
    }

    /// Writes `n` to the first eight bytes of `buf`; the rest of `buf` is kept.
    fn write_u64(self, buf: &mut [u8], n: u64)
        requires
            old(buf)@.len() >= 8,
        ensures
            final(buf)@.len() == old(buf)@.len(),
            decode(self.is_big(), final(buf)@.take(8)) == n as nat,
            final(buf)@.skip(8) == old(buf)@.skip(8),
    {
        if self.is_big_endian() {
            be_write_u64(buf, n)
        } else {
            le_write_u64(buf, n)
        }
    }
}

impl Endianity for RunTimeEndian {
    open spec fn is_big(&self) -> bool {
        *self is Big
    }

    fn is_big_endian(self) -> (r: bool) {
        match self {
            RunTimeEndian::Little => false,
            RunTimeEndian::Big => true,
        }
    }
}

/// Relies on `u16::from_ne_bytes`: the bytes `[0, 1]` in the host's byte order,
/// which is 1 on a big endian host and 256 on a little endian one.
#[verifier::external_body]
fn host_probe() -> (r: u16)
    ensures
        r == 1 || r == 256,
{
    u16::from_ne_bytes([0, 1])
}

impl Default for RunTimeEndian {
    /// The byte order of the host.
    fn default() -> (r: RunTimeEndian)
        ensures
            r == RunTimeEndian::Little || r == RunTimeEndian::Big,
    {
        if host_probe() == 1 {
            RunTimeEndian::Big
        } else {
            RunTimeEndian::Little
        }
    }
}

/// Little endian byte order.
#[derive(Debug, Clone, Copy, PartialEq, Eq, Structural, Hash)]
pub struct LittleEndian;

impl Default for LittleEndian {
    fn default() -> (r: LittleEndian)
        ensures
            r == LittleEndian,
    {
        LittleEndian
    }
}

impl Endianity for LittleEndian {
    open spec fn is_big(&self) -> bool {
        false
    }

    fn is_big_endian(self) -> (r: bool) {
        false
    }
}

/// Big endian byte order.
#[derive(Debug, Clone, Copy, PartialEq, Eq, Structural, Hash)]
pub struct BigEndian;

impl Default for BigEndian {
    fn default() -> (r: BigEndian)
        ensures
            r == BigEndian,
    {
        BigEndian
    }
}

impl Endianity for BigEndian {
    open spec fn is_big(&self) -> bool {
        true
    }

    fn is_big_endian(self) -> (r: bool) {
        true
    }
}

/// The native byte order of the hosts this library is built for (little endian).
pub type NativeEndian = LittleEndian;

/// The native byte order, as a value.
#[allow(non_upper_case_globals)]
pub const NativeEndian: LittleEndian = LittleEndian;

/// Reading bytes least significant byte first gives the same value as reading
/// them in reverse order, most significant byte first.
pub proof fn lemma_le_is_reversed_be(bytes: Seq<u8>)
    ensures
        le_value(bytes) == be_value(bytes.reverse()),
    decreases bytes.len(),
{
    if bytes.len() > 0 {
        let rev = bytes.reverse();
        lemma_le_is_reversed_be(bytes.drop_first());
        assert(rev.drop_last() =~= bytes.drop_first().reverse());
        assert(rev.last() == bytes[0]);
    }
}

/// The fixed little endian order and the fixed big endian order decode a byte
/// sequence and its reverse to the same value, whatever its width.
pub proof fn lemma_order_symmetry(bytes: Seq<u8>)
    ensures
        decode(LittleEndian.is_big(), bytes) == decode(BigEndian.is_big(), bytes.reverse()),
        decode(BigEndian.is_big(), bytes) == decode(LittleEndian.is_big(), bytes.reverse()),
{
    lemma_le_is_reversed_be(bytes);
    lemma_le_is_reversed_be(bytes.reverse());
    assert(bytes.reverse().reverse() =~= bytes);
}

} // verus!
