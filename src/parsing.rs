use vstd::prelude::*;
use vstd::slice::slice_subrange;
use vstd::slice::slice_to_vec;
use vstd::utf8::decode_utf8;
use vstd::utf8::valid_utf8;

use std::string::FromUtf8Error;

verus! {

/// 256 to the power `n`.
pub open spec fn pow256(n: nat) -> nat
    decreases n,
{
    if n == 0 {
        1
    } else {
        256 * pow256((n - 1) as nat)
    }
}

/// The unsigned integer that a big-endian byte sequence denotes.
pub open spec fn be_value(s: Seq<u8>) -> nat
    decreases s.len(),
{
    if s.len() == 0 {
        0
    } else {
        be_value(s.drop_last()) * 256 + s.last() as nat
    }
}

/// `n` bytes of `data` from `pos` on, read as a big-endian integer.
pub open spec fn be_at(data: Seq<u8>, pos: int, n: int) -> nat {
    be_value(data.subrange(pos, pos + n))
}

pub proof fn lemma_be_value_bound(s: Seq<u8>)
    ensures
        be_value(s) < pow256(s.len()),
    decreases s.len(),
{
    if s.len() > 0 {
        let p = s.drop_last();
        lemma_be_value_bound(p);
        let v = be_value(p);
        let b = s.last() as nat;
        assert(pow256(s.len()) == 256 * pow256(p.len()));
        assert(v * 256 + b < pow256(p.len()) * 256) by (nonlinear_arith)
            requires
                v < pow256(p.len()),
                b < 256,
        ;
    }
}

pub proof fn lemma_pow256_small()
    ensures
        pow256(1) == 256,
        pow256(2) == 0x1_0000,
        pow256(4) == 0x1_0000_0000,
        pow256(8) == 0x1_0000_0000_0000_0000,
        pow256(16) == 0x1_0000_0000_0000_0000_0000_0000_0000_0000,
{
    reveal_with_fuel(pow256, 17);
}

/// std's error for bytes that are not valid UTF-8, carried through unread.
#[verifier::external_type_specification]
#[verifier::external_body]
pub struct ExFromUtf8Error(FromUtf8Error);

/// A failed read of the byte cursor: which read ran out of input, or the
/// text that was not valid UTF-8.
#[derive(Debug)]
pub enum ReaderError {
    U8,
    U16,
    U32,
    U64,
    U128,
    String,
    Array,
    Vec,
    StringParse(FromUtf8Error),
}

pub type ReaderResult<T> = Result<T, ReaderError>;

/// Relies on String::from_utf8: it succeeds exactly on valid UTF-8, and the
/// string then holds the characters that the bytes encode.
#[verifier::external_body]
fn string_from_utf8(bytes: Vec<u8>) -> (r: Result<String, FromUtf8Error>)
    ensures
        r is Ok <==> valid_utf8(bytes@),
        r is Ok ==> r->Ok_0@ == decode_utf8(bytes@),
{
    String::from_utf8(bytes)
}

/// Sequential, bounds-checked reads over a byte buffer, big-endian.
pub struct Reader<'a> {
    buffer: &'a [u8],
    index: usize,
}

impl<'a> Reader<'a> {
    /// The whole buffer that is read.
    pub closed spec fn data(&self) -> Seq<u8> {
        self.buffer@
    }

    /// The offset of the next read.
    pub closed spec fn pos(&self) -> int {
        self.index as int
    }

    /// Whether `n` more bytes can be read from the current offset.
    pub open spec fn fits(&self, n: int) -> bool {
        self.pos() + n <= self.data().len()
    }

    pub proof fn lemma_bounds(&self)
        ensures
            0 <= self.pos() <= usize::MAX,
    {
    }

    pub fn new(buf: &'a [u8]) -> (r: Self)
        ensures
            r.data() == buf@,
            r.pos() == 0,
    {
        Reader { buffer: buf, index: 0 }
    }

    pub fn get_index(&self) -> (r: usize)
        ensures
            r == self.pos(),
    {
        self.index
    }

    pub fn set_index(&mut self, new_index: usize)
        ensures
            final(self).data() == old(self).data(),
            final(self).pos() == new_index,
    {
        self.index = new_index;
    }

    pub fn read_u8(&mut self) -> (r: ReaderResult<u8>)
        ensures
            final(self).data() == old(self).data(),
            old(self).fits(1) ==> r is Ok && r->Ok_0 == old(self).data()[old(self).pos()]
                && final(self).pos() == old(self).pos() + 1,
            !old(self).fits(1) ==> r is Err && r->Err_0 is U8 && final(self).pos() == old(
                self,
            ).pos(),
    {
        if self.index >= self.buffer.len() {
            return Err(ReaderError::U8);
        }
        let b = self.buffer[self.index];
        self.index = self.index + 1;
        Ok(b)
    }

    /// The next `LEN` bytes.
    pub fn read_array<const LEN: usize>(&mut self) -> (r: ReaderResult<[u8; LEN]>)
        ensures
            final(self).data() == old(self).data(),
            old(self).fits(LEN as int) ==> r is Ok && r->Ok_0@ == old(self).data().subrange(
                old(self).pos(),
                old(self).pos() + LEN,
            ) && final(self).pos() == old(self).pos() + LEN,
            !old(self).fits(LEN as int) ==> r is Err && r->Err_0 is Array && final(self).pos()
                == old(self).pos(),
    {
        if self.index > self.buffer.len() || LEN > self.buffer.len() - self.index {
            return Err(ReaderError::Array);
        }
        let mut arr: [u8; LEN] = [0u8; LEN];
        let mut i: usize = 0;
        while i < LEN
            invariant
                i <= LEN,
                self.index + LEN <= self.buffer@.len() <= usize::MAX,
                arr@.len() == LEN,
                forall|j: int| 0 <= j < i ==> arr@[j] == self.buffer@[self.index + j],
            decreases LEN - i,
        {
            arr[i] = self.buffer[self.index + i];
            i = i + 1;
        }
        self.index = self.index + LEN;
        assert(arr@ =~= old(self).data().subrange(old(self).pos(), old(self).pos() + LEN));
        Ok(arr)
    }

    pub fn read_u16(&mut self) -> (r: ReaderResult<u16>)
        ensures
            final(self).data() == old(self).data(),
            old(self).fits(2) ==> r is Ok && r->Ok_0 == be_at(old(self).data(), old(self).pos(), 2)
                && final(self).pos() == old(self).pos() + 2,
            !old(self).fits(2) ==> r is Err && r->Err_0 is U16 && final(self).pos() == old(
                self,
            ).pos(),
    {
        match self.read_array::<2>() {
            Ok(arr) => {
                let v = fold_be(arr.as_slice());
                proof {
                    lemma_pow256_small();
                }
                Ok(v as u16)
            },
            Err(_) => Err(ReaderError::U16),
        }
    }

    pub fn read_u32(&mut self) -> (r: ReaderResult<u32>)
        ensures
            final(self).data() == old(self).data(),
            old(self).fits(4) ==> r is Ok && r->Ok_0 == be_at(old(self).data(), old(self).pos(), 4)
                && final(self).pos() == old(self).pos() + 4,
            !old(self).fits(4) ==> r is Err && r->Err_0 is U32 && final(self).pos() == old(
                self,
            ).pos(),
    {
        match self.read_array::<4>() {
            Ok(arr) => {
                let v = fold_be(arr.as_slice());
                proof {
                    lemma_pow256_small();
                }
                Ok(v as u32)
            },
            Err(_) => Err(ReaderError::U32),
        }
    }

    pub fn read_u64(&mut self) -> (r: ReaderResult<u64>)
        ensures
            final(self).data() == old(self).data(),
            old(self).fits(8) ==> r is Ok && r->Ok_0 == be_at(old(self).data(), old(self).pos(), 8)
                && final(self).pos() == old(self).pos() + 8,
            !old(self).fits(8) ==> r is Err && r->Err_0 is U64 && final(self).pos() == old(
                self,
            ).pos(),
    {
        match self.read_array::<8>() {
            Ok(arr) => {
                let v = fold_be(arr.as_slice());
                proof {
                    lemma_pow256_small();
                }
                Ok(v as u64)
            },
            Err(_) => Err(ReaderError::U64),
        }
    }

    pub fn read_u128(&mut self) -> (r: ReaderResult<u128>)
        ensures
            final(self).data() == old(self).data(),
            old(self).fits(16) ==> r is Ok && r->Ok_0 == be_at(
                old(self).data(),
                old(self).pos(),
                16,
            ) && final(self).pos() == old(self).pos() + 16,
            !old(self).fits(16) ==> r is Err && r->Err_0 is U128 && final(self).pos() == old(
                self,
            ).pos(),
    {
        match self.read_array::<16>() {
            Ok(arr) => Ok(fold_be(arr.as_slice())),
            Err(_) => Err(ReaderError::U128),
        }
    }

    /// The next `len` bytes; fails when fewer remain.
    pub fn read_vec(&mut self, len: usize) -> (r: ReaderResult<Vec<u8>>)
        ensures
            final(self).data() == old(self).data(),
            old(self).fits(len as int) ==> r is Ok && r->Ok_0@ == old(self).data().subrange(
                old(self).pos(),
                old(self).pos() + len,
            ) && final(self).pos() == old(self).pos() + len,
            !old(self).fits(len as int) ==> r is Err && r->Err_0 is Vec && final(self).pos()
                == old(self).pos(),
    {
        if self.index > self.buffer.len() || len > self.buffer.len() - self.index {
            return Err(ReaderError::Vec);
        }
        let end = self.index + len;
        let v = slice_to_vec(slice_subrange(self.buffer, self.index, end));
        self.index = end;
        Ok(v)
    }

    /// The next `len` bytes as UTF-8 text.
    pub fn read_string(&mut self, len: usize) -> (r: ReaderResult<String>)
        ensures
            final(self).data() == old(self).data(),
            ({
                let bytes = old(self).data().subrange(old(self).pos(), old(self).pos() + len);
                &&& old(self).fits(len as int) && valid_utf8(bytes) ==> r is Ok && r->Ok_0@
                    == decode_utf8(bytes)
                &&& old(self).fits(len as int) && !valid_utf8(bytes) ==> r is Err && r->Err_0 is StringParse
                &&& old(self).fits(len as int) ==> final(self).pos() == old(self).pos() + len
                &&& !old(self).fits(len as int) ==> r is Err && r->Err_0 is String
                    && final(self).pos() == old(self).pos()
            }),
    {
        let bytes = match self.read_vec(len) {
            Ok(b) => b,
            Err(_) => {
                return Err(ReaderError::String);
            },
        };
        match string_from_utf8(bytes) {
            Ok(s) => Ok(s),
            Err(e) => Err(ReaderError::StringParse(e)),
        }
    }

    /// The bytes from the current offset to the end (none when the offset is
    /// past the end).
    pub fn peek_remaining_bytes(&self) -> (r: &[u8])
        ensures
            self.pos() <= self.data().len() ==> r@ == self.data().subrange(
                self.pos(),
                self.data().len() as int,
            ),
            self.pos() > self.data().len() ==> r@.len() == 0,
    {
        if self.index > self.buffer.len() {
            slice_subrange(self.buffer, 0, 0)
        } else {
            slice_subrange(self.buffer, self.index, self.buffer.len())
        }
    }
}

/// The big-endian value of at most sixteen bytes.
fn fold_be(bytes: &[u8]) -> (r: u128)
    requires
        bytes@.len() <= 16,
    ensures
        r == be_value(bytes@),
        r < pow256(bytes@.len()),
{
    let mut acc: u128 = 0;
    let mut i: usize = 0;
    while i < bytes.len()
        invariant
            i <= bytes@.len() <= 16,
            acc == be_value(bytes@.subrange(0, i as int)),
            acc < pow256(i as nat),
        decreases bytes@.len() - i,
    {
        let ghost prefix = bytes@.subrange(0, i as int);
        let ghost next = bytes@.subrange(0, i + 1);
        assert(next.drop_last() =~= prefix);
        proof {
            lemma_be_value_bound(next);
            lemma_pow256_mono((i + 1) as nat, 16);
            lemma_pow256_small();
        }
        acc = acc * 256 + bytes[i] as u128;
        i = i + 1;
    }
    assert(bytes@.subrange(0, i as int) =~= bytes@);
    acc
}

pub proof fn lemma_pow256_mono(a: nat, b: nat)
    requires
        a <= b,
    ensures
        pow256(a) <= pow256(b),
    decreases b,
{
    if a < b {
        lemma_pow256_mono(a, (b - 1) as nat);
    }
}

} // verus!
