//! Byte slices that carry a byte order, with bounds-checked reads.

use crate::endianity::{decode, signed16, signed32, signed64, Endianity};
use core::ops::Range;
use vstd::prelude::*;
use vstd::utf8::{decode_utf8, valid_utf8};

verus! {

/// What can go wrong while reading from a view.
#[derive(Debug, Clone, Copy, PartialEq, Eq, Structural)]
pub enum Error {
    /// Fewer bytes remain than the operation asks for.
    UnexpectedEof,
    /// The bytes are not valid UTF-8.
    BadUtf8,
}

/// A byte slice with a byte order. The view also keeps the buffer that it was
/// cut from and where in that buffer it starts, so that the offset of one view
/// within another can be computed.
///
/// Two views are equal when they cover the same bytes in the same byte order,
/// wherever those bytes lie.
#[derive(Debug, Copy)]
pub struct EndianSlice<'input, Endian> where Endian: Endianity {
    buf: &'input [u8],
    start: usize,
    slice: &'input [u8],
    endian: Endian,
}

impl<'input, Endian: Endianity> Clone for EndianSlice<'input, Endian> {
    fn clone(&self) -> (r: Self)
        ensures
            r == *self,
    {
        *self
    }
}

impl<'input, Endian: Endianity> PartialEq for EndianSlice<'input, Endian> {
    /// Equal when both views hold the same bytes in the same byte order.
    fn eq(&self, other: &Self) -> (r: bool) {
        let a = self.slice();
        let b = other.slice();
        if a.len() != b.len() || self.endian.is_big_endian() != other.endian.is_big_endian() {
            return false;
        }
        let mut i: usize = 0;
        while i < a.len()
            invariant
                a@ == self@,
                b@ == other@,
                a@.len() == b@.len(),
                i <= a@.len(),
                forall|j: int| 0 <= j < i ==> a@[j] == b@[j],
            decreases a@.len() - i,
        {
            if a[i] != b[i] {
                return false;
            }
            i = i + 1;
        }
        assert(a@ =~= b@);
        true
    }
}

impl<'input, Endian: Endianity> vstd::std_specs::cmp::PartialEqSpecImpl for EndianSlice<'input, Endian> {
    open spec fn obeys_eq_spec() -> bool {
        true
    }

    open spec fn eq_spec(&self, other: &Self) -> bool {
        self@ == other@ && self.order().is_big() == other.order().is_big()
    }
}

impl<'input, Endian: Endianity> Eq for EndianSlice<'input, Endian> {}

impl<'input, Endian: Endianity> From<EndianSlice<'input, Endian>> for &'input [u8] {
    /// The bytes that the view covers, as a plain slice.
    fn from(v: EndianSlice<'input, Endian>) -> (r: &'input [u8]) {
        v.slice
    }
}

impl<'input, Endian: Endianity> vstd::std_specs::convert::FromSpecImpl<EndianSlice<'input, Endian>> for &'input [u8] {
    open spec fn obeys_from_spec() -> bool {
        true
    }

    open spec fn from_spec(v: EndianSlice<'input, Endian>) -> &'input [u8] {
        v.window()
    }
}

impl<'input, Endian: Endianity> View for EndianSlice<'input, Endian> {
    type V = Seq<u8>;

    /// The bytes that the view covers.
    open spec fn view(&self) -> Seq<u8> {
        self.window()@
    }
}

impl<'input, Endian: Endianity> EndianSlice<'input, Endian> {
    #[verifier::type_invariant]
    spec fn inv(&self) -> bool {
        &&& self.buf@.len() <= usize::MAX
        &&& self.start + self.slice@.len() <= self.buf@.len()
        &&& self.slice@ == self.buf@.subrange(self.start as int, self.start + self.slice@.len())
    }

    /// The plain slice that the view covers.
    pub closed spec fn window(&self) -> &'input [u8] {
        self.slice
    }

    /// The whole buffer that the view was cut from.
    pub closed spec fn backing(&self) -> Seq<u8> {
        self.buf@
    }

    /// Where the view starts in its backing buffer.
    pub closed spec fn pos(&self) -> int {
        self.start as int
    }

    /// The view's byte order.
    pub closed spec fn order(&self) -> Endian {
        self.endian
    }

    /// `sub` is the part `[lo, hi)` of `self`, cut from the same buffer, with the same byte order.
    pub open spec fn is_part(self, sub: Self, lo: int, hi: int) -> bool {
        &&& 0 <= lo <= hi <= self@.len()
        &&& sub@ == self@.subrange(lo, hi)
        &&& sub.order() == self.order()
        &&& sub.backing() == self.backing()
        &&& sub.pos() == self.pos() + lo
    }

    /// `after` is `self` with its first `n` bytes consumed.
    pub open spec fn advanced(self, after: Self, n: int) -> bool {
        self.is_part(after, n, self@.len() as int)
    }

    /// Construct a new `EndianSlice` with the given slice and endianity.
    pub fn new(slice: &'input [u8], endian: Endian) -> (r: EndianSlice<'input, Endian>)
        ensures
            r@ == slice@,
            r.order() == endian,
            r.backing() == slice@,
            r.pos() == 0,
    {
        proof {
            vstd::slice::axiom_spec_len(slice);
            assert(slice@ =~= slice@.subrange(0, slice@.len() as int));
        }
        EndianSlice { buf: slice, start: 0, slice, endian }
    }

    /// Return a reference to the raw slice (the older name of `slice`).
    pub fn buf(&self) -> (r: &'input [u8])
        ensures
            r == self.window(),
            r@ == self@,
    {
        self.slice()
    }

    /// Return a reference to the raw slice.
    pub fn slice(&self) -> (r: &'input [u8])
        ensures
            r == self.window(),
            r@ == self@,
    {
        self.slice
    }

    /// Take the `start..end` range of the view as a new view.
    pub fn range(&self, idx: Range<usize>) -> (r: EndianSlice<'input, Endian>)
        requires
            idx.start <= idx.end <= self@.len(),
        ensures
            self.is_part(r, idx.start as int, idx.end as int),
    {
        proof {
            use_type_invariant(self);
        }
        let sub = &self.slice[idx.start..idx.end];
        proof {
            assert(sub@ =~= self.buf@.subrange(self.start + idx.start as int, self.start + idx.end as int));
            assert(sub@ =~= self@.subrange(idx.start as int, idx.end as int));
        }
        EndianSlice { buf: self.buf, start: self.start + idx.start, slice: sub, endian: self.endian }
    }

    /// Take the bytes from `start` to the end of the view as a new view.
    pub fn range_from(&self, start: usize) -> (r: EndianSlice<'input, Endian>)
        requires
            start <= self@.len(),
        ensures
            self.is_part(r, start as int, self@.len() as int),
    {
        proof {
            use_type_invariant(self);
        }
        let sub = &self.slice[start..self.slice.len()];
        proof {
            assert(sub@ =~= self.buf@.subrange(self.start + start as int, self.start + self@.len() as int));
            assert(sub@ =~= self@.subrange(start as int, self@.len() as int));
        }
        EndianSlice { buf: self.buf, start: self.start + start, slice: sub, endian: self.endian }
    }

    /// Take the first `end` bytes of the view as a new view.
    pub fn range_to(&self, end: usize) -> (r: EndianSlice<'input, Endian>)
        requires
            end <= self@.len(),
        ensures
            self.is_part(r, 0, end as int),
    {
        proof {
            use_type_invariant(self);
        }
        let sub = &self.slice[0..end];
        proof {
            assert(sub@ =~= self.buf@.subrange(self.start + 0, self.start + end as int));
            assert(sub@ =~= self@.subrange(0, end as int));
        }
        EndianSlice { buf: self.buf, start: self.start, slice: sub, endian: self.endian }
    }

    /// Split the view in two at `idx`: the first part covers `[0, idx)`, the
    /// second `[idx, len)`.
    pub fn split_at(&self, idx: usize) -> (r: (EndianSlice<'input, Endian>, EndianSlice<'input, Endian>))
        requires
            idx <= self@.len(),
        ensures
            self.is_part(r.0, 0, idx as int),
            self.is_part(r.1, idx as int, self@.len() as int),
            r.0@ == self@.take(idx as int),
            r.1@ == self@.skip(idx as int),
            r.0@.len() + r.1@.len() == self@.len(),
    {
        (self.range_to(idx), self.range_from(idx))
    }

    /// Find the first occurrence of `byte` in the view, and return its index.
    pub fn find(&self, byte: u8) -> (r: Option<usize>)
        ensures
            match r {
                Some(i) => i < self@.len() && self@[i as int] == byte && forall|j: int|
                    0 <= j < i ==> self@[j] != byte,
                None => forall|j: int| 0 <= j < self@.len() ==> self@[j] != byte,
            },
    {
        let bytes = self.slice();
        let mut i: usize = 0;
        while i < bytes.len()
            invariant
                bytes@ == self@,
                i <= bytes@.len(),
                forall|j: int| 0 <= j < i ==> self@[j] != byte,
            decreases bytes@.len() - i,
        {
            if bytes[i] == byte {
                return Some(i);
            }
            i = i + 1;
        }
        None
    }

    /// The offset of the start of `self` from the start of `base`, where
    /// `self` lies inside `base` and both were cut from one buffer.
    pub fn offset_from(&self, base: EndianSlice<'input, Endian>) -> (r: usize)
        requires
            self.backing() == base.backing(),
            base.pos() <= self.pos(),
            self.pos() + self@.len() <= base.pos() + base@.len(),
        ensures
            r == self.pos() - base.pos(),
            self@ == base@.subrange(r as int, r + self@.len()),
    {
        proof {
            use_type_invariant(self);
            use_type_invariant(&base);
            assert(self@ =~= base@.subrange(
                self.start - base.start,
                self.start - base.start + self@.len(),
            ));
        }
        self.start - base.start
    }

    /// The view's byte order.
    pub fn endian(&self) -> (r: Endian)
        ensures
            r == self.order(),
    {
        self.endian
    }

    /// The number of bytes in the view.
    pub fn len(&self) -> (r: usize)
        ensures
            r == self@.len(),
    {
        self.slice.len()
    }

    /// Whether the view holds no bytes.
    pub fn is_empty(&self) -> (r: bool)
        ensures
            r == (self@.len() == 0),
    {
        self.slice.is_empty()
    }

    /// Drop every byte of the view.
    pub fn empty(&mut self)
        ensures
            old(self).is_part(*final(self), 0, 0),
            final(self)@.len() == 0,
    {
        proof {
            use_type_invariant(&*self);
        }
        *self = self.range_to(0);
    }

    /// Keep only the first `len` bytes of the view.
    pub fn truncate(&mut self, len: usize) -> (r: Result<(), Error>)
        ensures
            r is Ok <==> len <= old(self)@.len(),
            r is Ok ==> old(self).is_part(*final(self), 0, len as int),
            r is Err ==> r == Err::<(), Error>(Error::UnexpectedEof) && *final(self) == *old(self),
    {
        if self.len() < len {
            Err(Error::UnexpectedEof)
        } else {
            *self = self.range_to(len);
            Ok(())
        }
    }

    /// Consume the first `len` bytes of the view.
    pub fn skip(&mut self, len: usize) -> (r: Result<(), Error>)
        ensures
            r is Ok <==> len <= old(self)@.len(),
            r is Ok ==> old(self).advanced(*final(self), len as int),
            r is Err ==> r == Err::<(), Error>(Error::UnexpectedEof) && *final(self) == *old(self),
    {
        if self.len() < len {
            Err(Error::UnexpectedEof)
        } else {
            *self = self.range_from(len);
            Ok(())
        }
    }

    /// Consume the first `len` bytes of the view and return them as a view of
    /// their own, with the same byte order.
    pub fn split(&mut self, len: usize) -> (r: Result<EndianSlice<'input, Endian>, Error>)
        ensures
            r is Ok <==> len <= old(self)@.len(),
            match r {
                Ok(taken) => old(self).is_part(taken, 0, len as int) && old(self).advanced(
                    *final(self),
                    len as int,
                ),
                Err(e) => e == Error::UnexpectedEof && *final(self) == *old(self),
            },
    {
        if self.len() < len {
            Err(Error::UnexpectedEof)
        } else {
            let taken = self.range_to(len);
            *self = self.range_from(len);
            Ok(taken)
        }
    }

    /// An owned copy of the view's bytes.
    pub fn to_slice(&self) -> (r: Vec<u8>)
        ensures
            r@ == self@,
    {
        vstd::slice::slice_to_vec(self.slice())
    }

    /// The view's bytes as a string, if they are valid UTF-8.
    pub fn to_string(&self) -> (r: Result<&'input str, Error>)
        ensures
            r is Ok <==> valid_utf8(self@),
            match r {
                Ok(s) => s@ == decode_utf8(self@),
                Err(e) => e == Error::BadUtf8,
            },
    {
        match utf8_str(self.slice()) {
            Some(s) => Ok(s),
            None => Err(Error::BadUtf8),
        }
    }

    /// The view's bytes as a string, with each invalid sequence replaced by
    /// U+FFFD REPLACEMENT CHARACTER.
    pub fn to_string_lossy(&self) -> (r: String)
        ensures
            r@ == lossy_utf8(self@),
            valid_utf8(self@) ==> r@ == decode_utf8(self@),
    {
        utf8_lossy(self.slice())
    }

    /// Splitting off no bytes leaves the view as it was, and hands back an
    /// empty view with the same byte order.
    pub proof fn lemma_split_nothing(self, taken: Self, rest: Self)
        requires
            self.is_part(taken, 0, 0),
            self.advanced(rest, 0),
        ensures
            rest@ == self@,
            rest@.len() == self@.len(),
            rest.order() == self.order(),
            taken@.len() == 0,
            taken.order() == self.order(),
    {
        assert(rest@ =~= self@);
    }

    /// Splitting off every byte leaves the view empty, and hands back a view
    /// equal to the one that was split.
    pub proof fn lemma_split_everything(self, taken: Self, rest: Self)
        requires
            self.is_part(taken, 0, self@.len() as int),
            self.advanced(rest, self@.len() as int),
        ensures
            rest@.len() == 0,
            rest.order() == self.order(),
            taken@ == self@,
            taken.order() == self.order(),
    {
        assert(taken@ =~= self@);
    }

    fn read_slice(&mut self, len: usize) -> (r: Result<&'input [u8], Error>)
        ensures
            match r {
                Ok(taken) => {
                    &&& len <= old(self)@.len()
                    &&& taken@ == old(self)@.take(len as int)
                    &&& old(self).is_part(*final(self), len as int, old(self)@.len() as int)
                },
                Err(e) => e == Error::UnexpectedEof && len > old(self)@.len() && *final(self)
                    == *old(self),
            },
    {
        if self.slice.len() < len {
            Err(Error::UnexpectedEof)
        } else {
            let taken = &self.slice[0..len];
            *self = self.range_from(len);
            Ok(taken)
        }
    }

    /// Consume `N` bytes and return them as an array, unconverted.
    pub fn read_u8_array<const N: usize>(&mut self) -> (r: Result<[u8; N], Error>)
        ensures
            r is Ok <==> N <= old(self)@.len(),
            match r {
                Ok(a) => a@ == old(self)@.take(N as int) && old(self).advanced(*final(self), N as int),
                Err(e) => e == Error::UnexpectedEof && *final(self) == *old(self),
            },
    {
        let bytes = self.read_slice(N)?;
        let mut a: [u8; N] = [0u8; N];
        let mut i: usize = 0;
        while i < N
            invariant
                bytes@.len() == N,
                i <= N,
                a@.len() == N,
                forall|j: int| 0 <= j < i ==> a@[j] == bytes@[j],
            decreases N - i,
        {
            a[i] = bytes[i];
            i = i + 1;
        }
        assert(a@ =~= bytes@);
        Ok(a)
    }

    /// Consume one byte and return it.
    pub fn read_u8(&mut self) -> (r: Result<u8, Error>)
        ensures
            r is Ok <==> 1 <= old(self)@.len(),
            match r {
                Ok(v) => v == old(self)@[0] && old(self).advanced(*final(self), 1),
                Err(e) => e == Error::UnexpectedEof && *final(self) == *old(self),
            },
    {
        let bytes = self.read_slice(1)?;
        Ok(bytes[0])
    }

    /// Consume one byte and return it as a signed integer.
    pub fn read_i8(&mut self) -> (r: Result<i8, Error>)
        ensures
            r is Ok <==> 1 <= old(self)@.len(),
            match r {
                Ok(v) => v == old(self)@[0] as i8 && old(self).advanced(*final(self), 1),
                Err(e) => e == Error::UnexpectedEof && *final(self) == *old(self),
            },
    {
        let bytes = self.read_slice(1)?;
        Ok(bytes[0] as i8)
    }

    /// Consume two bytes and decode them in the view's byte order.
    pub fn read_u16(&mut self) -> (r: Result<u16, Error>)
        ensures
            r is Ok <==> 2 <= old(self)@.len(),
            match r {
                Ok(v) => v as nat == decode(old(self).order().is_big(), old(self)@.take(2))
                    && old(self).advanced(*final(self), 2),
                Err(e) => e == Error::UnexpectedEof && *final(self) == *old(self),
            },
    {
        let bytes = self.read_slice(2)?;
        assert(bytes@.take(2) =~= old(self)@.take(2));
        Ok(self.endian.read_u16(bytes))
    }

    /// Consume two bytes and decode them, as two's complement, in the view's byte order.
    pub fn read_i16(&mut self) -> (r: Result<i16, Error>)
        ensures
            r is Ok <==> 2 <= old(self)@.len(),
            match r {
                Ok(v) => v == signed16(decode(old(self).order().is_big(), old(self)@.take(2)))
                    && old(self).advanced(*final(self), 2),
                Err(e) => e == Error::UnexpectedEof && *final(self) == *old(self),
            },
    {
        let bytes = self.read_slice(2)?;
        assert(bytes@.take(2) =~= old(self)@.take(2));
        Ok(self.endian.read_i16(bytes))
    }

    /// Consume four bytes and decode them in the view's byte order.
    pub fn read_u32(&mut self) -> (r: Result<u32, Error>)
        ensures
            r is Ok <==> 4 <= old(self)@.len(),
            match r {
                Ok(v) => v as nat == decode(old(self).order().is_big(), old(self)@.take(4))
                    && old(self).advanced(*final(self), 4),
                Err(e) => e == Error::UnexpectedEof && *final(self) == *old(self),
            },
    {
        let bytes = self.read_slice(4)?;
        assert(bytes@.take(4) =~= old(self)@.take(4));
        Ok(self.endian.read_u32(bytes))
    }

    /// Consume four bytes and decode them, as two's complement, in the view's byte order.
    pub fn read_i32(&mut self) -> (r: Result<i32, Error>)
        ensures
            r is Ok <==> 4 <= old(self)@.len(),
            match r {
                Ok(v) => v == signed32(decode(old(self).order().is_big(), old(self)@.take(4)))
                    && old(self).advanced(*final(self), 4),
                Err(e) => e == Error::UnexpectedEof && *final(self) == *old(self),
            },
    {
        let bytes = self.read_slice(4)?;
        assert(bytes@.take(4) =~= old(self)@.take(4));
        Ok(self.endian.read_i32(bytes))
    }

    /// Consume eight bytes and decode them in the view's byte order.
    pub fn read_u64(&mut self) -> (r: Result<u64, Error>)
        ensures
            r is Ok <==> 8 <= old(self)@.len(),
            match r {
                Ok(v) => v as nat == decode(old(self).order().is_big(), old(self)@.take(8))
                    && old(self).advanced(*final(self), 8),
                Err(e) => e == Error::UnexpectedEof && *final(self) == *old(self),
            },
    {
        let bytes = self.read_slice(8)?;
        assert(bytes@.take(8) =~= old(self)@.take(8));
        Ok(self.endian.read_u64(bytes))
    }

    /// Consume eight bytes and decode them, as two's complement, in the view's byte order.
    pub fn read_i64(&mut self) -> (r: Result<i64, Error>)
        ensures
            r is Ok <==> 8 <= old(self)@.len(),
            match r {
                Ok(v) => v == signed64(decode(old(self).order().is_big(), old(self)@.take(8)))
                    && old(self).advanced(*final(self), 8),
                Err(e) => e == Error::UnexpectedEof && *final(self) == *old(self),
            },
    {
        let bytes = self.read_slice(8)?;
        assert(bytes@.take(8) =~= old(self)@.take(8));
        Ok(self.endian.read_i64(bytes))
    }
}


/// The characters that lossy UTF-8 decoding makes of `bytes`.
pub uninterp spec fn lossy_utf8(bytes: Seq<u8>) -> Seq<char>;

/// Relies on `core::str::from_utf8`: it succeeds exactly on valid UTF-8, and
/// the string then holds the decoded characters.
#[verifier::external_body]
fn utf8_str<'a>(bytes: &'a [u8]) -> (r: Option<&'a str>)
    ensures
        r is Some <==> valid_utf8(bytes@),
        r matches Some(s) ==> s@ == decode_utf8(bytes@),
{
    core::str::from_utf8(bytes).ok()
}

/// Relies on `String::from_utf8_lossy`: the result depends on the bytes alone,
/// and valid UTF-8 comes out decoded as it is.
#[verifier::external_body]
fn utf8_lossy(bytes: &[u8]) -> (r: String)
    ensures
        r@ == lossy_utf8(bytes@),
        valid_utf8(bytes@) ==> r@ == decode_utf8(bytes@),
{
    String::from_utf8_lossy(bytes).into_owned()
}

} // verus!
