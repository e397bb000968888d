//! An owned byte buffer for secrets. Bytes are only handed out inside a
//! caller-supplied scope, comparisons take time independent of the contents,
//! and every byte that leaves the buffer is overwritten with zero first.

use subtle::ConstantTimeEq;
use vstd::std_specs::cmp::PartialEqSpecImpl;
use vstd::prelude::*;
use vstd::slice::slice_subrange;
use vstd::slice::slice_to_vec;
use vstd::string::StringSliceAdditionalSpecFns;
use zeroize::Zeroize;

verus! {

/// A sequence of `n` zero bytes.
pub open spec fn zeros(n: nat) -> Seq<u8> {
    Seq::new(n, |i: int| 0u8)
}

/// The text that lossy UTF-8 decoding gives for a byte sequence.
pub uninterp spec fn utf8_lossy_text(bytes: Seq<u8>) -> Seq<char>;

/// `Zeroize::zeroize` on a `Vec<u8>`: every byte of the allocation, spare
/// capacity included, is overwritten with zero and the vector is left empty.
#[verifier::external_body]
fn wipe_vec(data: &mut Vec<u8>)
    ensures
        final(data)@ == Seq::<u8>::empty(),
    opens_invariants none
    no_unwind
{
    data.zeroize();
}

/// `Zeroize::zeroize` on the slice `data[from..]`: the bytes from `from` on
/// are overwritten with zero, the ones before it and the length stay.
#[verifier::external_body]
fn wipe_tail(data: &mut Vec<u8>, from: usize)
    requires
        from <= old(data)@.len(),
    ensures
        final(data)@ == old(data)@.subrange(0, from as int) + zeros((old(data)@.len() - from) as nat),
{
    data[from..].zeroize();
}

/// `ConstantTimeEq::ct_eq` on two byte slices, turned into a `bool`: true
/// exactly when both hold the same bytes. Slices of different lengths are
/// told apart at once; otherwise every byte pair is compared.
#[verifier::external_body]
fn ct_eq_bytes(a: &[u8], b: &[u8]) -> (same: bool)
    ensures
        same == (a@ == b@),
{
    a.ct_eq(b).into()
}

/// `String::from_utf8_lossy`, as an owned `String`: the decoded text, with
/// the replacement character in place of each invalid sequence.
#[verifier::external_body]
fn lossy_text(bytes: &[u8]) -> (text: String)
    ensures
        text@ == utf8_lossy_text(bytes@),
{
    String::from_utf8_lossy(bytes).into_owned()
}

/// `Vec::capacity`: the number of bytes the allocation can hold, which is
/// never less than the vector's length.
#[verifier::external_body]
fn allocated(data: &Vec<u8>) -> (cap: usize)
    ensures
        cap >= data@.len(),
{
    data.capacity()
}

/// A byte buffer that holds a secret. Its contents are the sequence of
/// bytes that its view gives; the allocation behind them is zeroed whenever
/// bytes leave it and when the buffer is dropped.
pub struct ZeroByte {
    data: Vec<u8>,
}

impl View for ZeroByte {
    type V = Seq<u8>;

    closed spec fn view(&self) -> Seq<u8> {
        self.data@
    }
}

impl ZeroByte {
    /// Create an empty buffer with pre-allocated capacity.
    pub fn with_capacity(capacity: usize) -> (buf: Self)
        ensures
            buf@ == Seq::<u8>::empty(),
    {
        Self { data: Vec::with_capacity(capacity) }
    }

    /// Create a buffer holding the UTF-8 bytes of `s`.
    pub fn from_text(s: &str) -> (buf: Self)
        ensures
            buf@ == s.spec_bytes(),
    {
        Self::from_bytes(s.as_bytes())
    }

    /// Create a buffer holding a copy of `b`.
    pub fn from_bytes(b: &[u8]) -> (buf: Self)
        ensures
            buf@ == b@,
    {
        Self { data: slice_to_vec(b) }
    }

    /// Create a buffer that takes ownership of `v`.
    pub fn from_vec(v: Vec<u8>) -> (buf: Self)
        ensures
            buf@ == v@,
    {
        Self { data: v }
    }

    /// Number of bytes held.
    pub fn len(&self) -> (n: usize)
        ensures
            n == self@.len(),
    {
        self.data.len()
    }

    /// Whether no byte is held.
    pub fn is_empty(&self) -> (empty: bool)
        ensures
            empty == (self@.len() == 0),
    {
        self.data.is_empty()
    }

    /// Capacity of the underlying allocation; never less than the length.
    pub fn capacity(&self) -> (cap: usize)
        ensures
            cap >= self@.len(),
    {
        allocated(&self.data)
    }

    /// Reserve room for `additional` more bytes; the contents stay.
    pub fn reserve(&mut self, additional: usize)
        requires
            old(self)@.len() + additional <= isize::MAX,
        ensures
            final(self)@ == old(self)@,
    {
        self.data.reserve(additional);
    }

    /// Run `f` on the bytes and hand back what it returns. The slice does
    /// not outlive the call.
    pub fn with_bytes<T, F: FnOnce(&[u8]) -> T>(&self, f: F) -> (out: T)
        requires
            forall|s: &[u8]| s@ == self@ ==> call_requires(f, (s,)),
        ensures
            exists|s: &[u8]| s@ == self@ && call_ensures(f, (s,), out),
    {
        f(self.data.as_slice())
    }

    /// Run `f` on the bytes, which it may change in place but not resize,
    /// and hand back what it returns.
    pub fn with_bytes_mut<T, F: FnOnce(&mut [u8]) -> T>(&mut self, f: F) -> (out: T)
        requires
            forall|s: &mut [u8]| s@ == old(self)@ ==> call_requires(f, (s,)),
        ensures
            exists|s: &mut [u8]|
                s@ == old(self)@ && final(s)@ == final(self)@ && call_ensures(f, (s,), out),
    {
        f(self.data.as_mut_slice())
    }

    /// Constant-time equality with a byte slice.
    pub fn constant_time_eq(&self, other: &[u8]) -> (same: bool)
        ensures
            same == (self@ == other@),
    {
        if self.data.len() != other.len() {
            return false;
        }
        ct_eq_bytes(self.data.as_slice(), other)
    }

    /// Constant-time equality with another buffer.
    pub fn constant_time_eq_zero_byte(&self, other: &Self) -> (same: bool)
        ensures
            same == (self@ == other@),
    {
        self.constant_time_eq(other.data.as_slice())
    }

    /// Create a new buffer with a copy of the bytes from `start` up to `end`.
    pub fn secure_copy_range(&self, start: usize, end: usize) -> (buf: Self)
        requires
            start <= end <= self@.len(),
        ensures
            buf@ == self@.subrange(start as int, end as int),
    {
        Self::from_bytes(slice_subrange(self.data.as_slice(), start, end))
    }

    /// Split into two new buffers at `mid`; this buffer keeps its bytes.
    pub fn secure_split_at(&self, mid: usize) -> (halves: (Self, Self))
        requires
            mid <= self@.len(),
        ensures
            halves.0@ == self@.subrange(0, mid as int),
            halves.1@ == self@.subrange(mid as int, self@.len() as int),
    {
        let all = self.data.as_slice();
        let left = Self::from_bytes(slice_subrange(all, 0, mid));
        let right = Self::from_bytes(slice_subrange(all, mid, all.len()));
        (left, right)
    }

    /// Append the bytes of a slice.
    pub fn extend_from_slice(&mut self, other: &[u8])
        ensures
            final(self)@ == old(self)@ + other@,
    {
        self.data.extend_from_slice(other);
        assert(self.data@ =~= old(self).data@ + other@);
    }

    /// Append the bytes of another buffer, which keeps them.
    pub fn extend_from_zero_byte(&mut self, other: &Self)
        ensures
            final(self)@ == old(self)@ + other@,
    {
        self.extend_from_slice(other.data.as_slice());
    }

    /// Shorten to `len` bytes; the bytes cut off are zeroed first. A `len`
    /// at or beyond the current length changes nothing.
    pub fn truncate(&mut self, len: usize)
        ensures
            final(self)@ == if len <= old(self)@.len() {
                old(self)@.subrange(0, len as int)
            } else {
                old(self)@
            },
    {
        if len < self.data.len() {
            wipe_tail(&mut self.data, len);
        }
        self.data.truncate(len);
        assert(self.data@ =~= if len <= old(self).data@.len() {
            old(self).data@.subrange(0, len as int)
        } else {
            old(self).data@
        });
    }

    /// Zero every byte held, then drop them all.
    pub fn clear(&mut self)
        ensures
            final(self)@ == Seq::<u8>::empty(),
    {
        wipe_vec(&mut self.data);
    }

    /// Append one byte.
    pub fn push(&mut self, byte: u8)
        ensures
            final(self)@ == old(self)@.push(byte),
    {
        self.data.push(byte);
    }

    /// Remove and return the last byte, or `None` if the buffer is empty.
    pub fn pop(&mut self) -> (byte: Option<u8>)
        ensures
            old(self)@.len() == 0 ==> byte.is_none() && final(self)@ == old(self)@,
            old(self)@.len() > 0 ==> byte == Some(old(self)@.last()) && final(self)@ == old(
                self,
            )@.drop_last(),
    {
        self.data.pop()
    }

    /// Set the length to `new_len`: a shorter buffer has the bytes cut off
    /// zeroed first, a longer one is filled up with `value`.
    pub fn resize(&mut self, new_len: usize, value: u8)
        requires
            new_len <= isize::MAX,
        ensures
            final(self)@ == if new_len <= old(self)@.len() {
                old(self)@.subrange(0, new_len as int)
            } else {
                old(self)@ + Seq::new((new_len - old(self)@.len()) as nat, |i: int| value)
            },
    {
        if new_len < self.data.len() {
            wipe_tail(&mut self.data, new_len);
        }
        self.data.resize(new_len, value);
        assert(self.data@ =~= if new_len <= old(self).data@.len() {
            old(self).data@.subrange(0, new_len as int)
        } else {
            old(self).data@ + Seq::new((new_len - old(self).data@.len()) as nat, |i: int| value)
        });
    }

    /// The byte at `index`, or `None` beyond the end.
    pub fn get(&self, index: usize) -> (byte: Option<u8>)
        ensures
            byte == if index < self@.len() {
                Some(self@[index as int])
            } else {
                None
            },
    {
        if index < self.data.len() {
            Some(self.data[index])
        } else {
            None
        }
    }

    /// Overwrite the byte at `index`; beyond the end nothing changes and
    /// an error says so.
    pub fn set(&mut self, index: usize, value: u8) -> (done: Result<(), &'static str>)
        ensures
            index < old(self)@.len() ==> done.is_ok() && final(self)@ == old(self)@.update(
                index as int,
                value,
            ),
            index >= old(self)@.len() ==> done == Err::<(), &'static str>("Index out of bounds")
                && final(self)@ == old(self)@,
    {
        if index < self.data.len() {
            self.data[index] = value;
            Ok(())
        } else {
            Err("Index out of bounds")
        }
    }

    /// Whether the buffer begins with `prefix`, compared in constant time
    /// once the lengths allow a match.
    pub fn secure_starts_with(&self, prefix: &[u8]) -> (found: bool)
        ensures
            found == (prefix@.len() <= self@.len() && self@.subrange(0, prefix@.len() as int)
                == prefix@),
    {
        if prefix.len() > self.data.len() {
            return false;
        }
        ct_eq_bytes(slice_subrange(self.data.as_slice(), 0, prefix.len()), prefix)
    }

    /// Whether the buffer ends with `suffix`, compared in constant time
    /// once the lengths allow a match.
    pub fn secure_ends_with(&self, suffix: &[u8]) -> (found: bool)
        ensures
            found == (suffix@.len() <= self@.len() && self@.subrange(
                self@.len() - suffix@.len(),
                self@.len() as int,
            ) == suffix@),
    {
        if suffix.len() > self.data.len() {
            return false;
        }
        let start = self.data.len() - suffix.len();
        ct_eq_bytes(slice_subrange(self.data.as_slice(), start, self.data.len()), suffix)
    }

    /// An explicit copy of this buffer.
    pub fn secure_clone(&self) -> (buf: Self)
        ensures
            buf@ == self@,
    {
        Self::from_bytes(self.data.as_slice())
    }

    /// Append another buffer, consuming it; what it held is zeroed when it
    /// is dropped at the end of the call.
    pub fn append(&mut self, other: ZeroByte)
        ensures
            final(self)@ == old(self)@ + other@,
    {
        let mut other = other;
        self.data.append(&mut other.data);
    }

    /// Hand the bytes out as a plain vector, leaving nothing behind.
    pub fn into_vec(self) -> (bytes: Vec<u8>)
        ensures
            bytes@ == self@,
    {
        let mut this = self;
        let mut result = Vec::new();
        std::mem::swap(&mut result, &mut this.data);
        result
    }

    /// The contents as text for display: the UTF-8 text they encode, with
    /// the replacement character wherever they are no valid UTF-8.
    pub fn to_string_secure(&self) -> (text: String)
        ensures
            text@ == utf8_lossy_text(self@),
    {
        lossy_text(self.data.as_slice())
    }
}

impl Drop for ZeroByte {
    /// Zero the whole allocation before it is released.
    fn drop(&mut self)
        opens_invariants none
        no_unwind
    {
        wipe_vec(&mut self.data);
    }
}

impl Clone for ZeroByte {
    fn clone(&self) -> (buf: Self)
        ensures
            buf@ == self@,
    {
        self.secure_clone()
    }
}

impl PartialEq for ZeroByte {
    fn eq(&self, other: &Self) -> (same: bool) {
        self.constant_time_eq_zero_byte(other)
    }
}

impl PartialEqSpecImpl for ZeroByte {
    open spec fn obeys_eq_spec() -> bool {
        true
    }

    open spec fn eq_spec(&self, other: &Self) -> bool {
        self@ == other@
    }
}

impl Eq for ZeroByte {

}

} // verus!
