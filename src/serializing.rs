use vstd::prelude::*;

use crate::parsing::be_value;
use crate::parsing::pow256;

verus! {

/// The last `n` bytes of `v` in big-endian order.
pub open spec fn be_bytes(v: nat, n: nat) -> Seq<u8>
    decreases n,
{
    if n == 0 {
        seq![]
    } else {
        be_bytes(v / 256, (n - 1) as nat).push((v % 256) as u8)
    }
}

/// Reading back the bytes that `be_bytes` wrote gives the value.
pub proof fn lemma_be_round_trip(v: nat, n: nat)
    requires
        v < pow256(n),
    ensures
        be_bytes(v, n).len() == n,
        be_value(be_bytes(v, n)) == v,
    decreases n,
{
    if n > 0 {
        assert(v / 256 < pow256((n - 1) as nat)) by (nonlinear_arith)
            requires
                v < pow256(n),
                pow256(n) == 256 * pow256((n - 1) as nat),
        ;
        lemma_be_round_trip(v / 256, (n - 1) as nat);
        let s = be_bytes(v, n);
        assert(s.drop_last() =~= be_bytes(v / 256, (n - 1) as nat));
    }
}

pub fn write_u8(buffer: &mut Vec<u8>, val: u8)
    ensures
        final(buffer)@ == old(buffer)@.push(val),
{
    buffer.push(val);
}

pub fn write_u16(buffer: &mut Vec<u8>, val: u16)
    ensures
        final(buffer)@ == old(buffer)@ + be_bytes(val as nat, 2),
{
    buffer.push((val / 256) as u8);
    buffer.push((val % 256) as u8);
    assert(final(buffer)@ =~= old(buffer)@ + be_bytes(val as nat, 2)) by {
        reveal_with_fuel(be_bytes, 3);
    }
}

pub fn write_u32(buffer: &mut Vec<u8>, val: u32)
    ensures
        final(buffer)@ == old(buffer)@ + be_bytes(val as nat, 4),
{
    buffer.push((val / 0x100_0000) as u8);
    buffer.push((val / 0x1_0000 % 256) as u8);
    buffer.push((val / 256 % 256) as u8);
    buffer.push((val % 256) as u8);
    let ghost v = val as nat;
    assert(v / 256 / 256 == v / 0x1_0000 && v / 0x1_0000 / 256 == v / 0x100_0000
        && v / 0x100_0000 % 256 == v / 0x100_0000) by (nonlinear_arith)
        requires
            v < 0x1_0000_0000,
    ;
    assert(final(buffer)@ =~= old(buffer)@ + be_bytes(v, 4)) by {
        reveal_with_fuel(be_bytes, 5);
    }
}

/// Append-only output bytes, with the offsets at which labels were written.
pub struct Writer {
    buffer: Vec<u8>,
    labels: Vec<(String, usize)>,
}

/// The offset recorded last for label `k` among `entries`.
pub open spec fn latest_offset(entries: Seq<(String, usize)>, k: Seq<char>) -> Option<usize>
    decreases entries.len(),
{
    if entries.len() == 0 {
        None
    } else if entries.last().0@ == k {
        Some(entries.last().1)
    } else {
        latest_offset(entries.drop_last(), k)
    }
}

impl View for Writer {
    type V = Seq<u8>;

    closed spec fn view(&self) -> Seq<u8> {
        self.buffer@
    }
}

impl Writer {
    /// The offset at which label `k` was tracked last, if it was.
    pub closed spec fn label_offset(&self, k: Seq<char>) -> Option<usize> {
        latest_offset(self.labels@, k)
    }

    pub fn new() -> (r: Self)
        ensures
            r@ == Seq::<u8>::empty(),
            forall|k: Seq<char>| #[trigger] r.label_offset(k) is None,
    {
        Writer { buffer: Vec::new(), labels: Vec::new() }
    }

    pub fn write_u8(&mut self, val: u8)
        ensures
            final(self)@ == old(self)@.push(val),
            forall|k: Seq<char>| #[trigger] final(self).label_offset(k) == old(self).label_offset(k),
    {
        write_u8(&mut self.buffer, val);
    }

    pub fn write_u16(&mut self, val: u16)
        ensures
            final(self)@ == old(self)@ + be_bytes(val as nat, 2),
            forall|k: Seq<char>| #[trigger] final(self).label_offset(k) == old(self).label_offset(k),
    {
        write_u16(&mut self.buffer, val);
    }

    pub fn write_u32(&mut self, val: u32)
        ensures
            final(self)@ == old(self)@ + be_bytes(val as nat, 4),
            forall|k: Seq<char>| #[trigger] final(self).label_offset(k) == old(self).label_offset(k),
    {
        write_u32(&mut self.buffer, val);
    }

    /// Appends raw bytes.
    pub fn write_bytes(&mut self, bytes: &[u8])
        ensures
            final(self)@ == old(self)@ + bytes@,
            forall|k: Seq<char>| #[trigger] final(self).label_offset(k) == old(self).label_offset(k),
    {
        let mut i: usize = 0;
        while i < bytes.len()
            invariant
                i <= bytes@.len(),
                self@ == old(self)@ + bytes@.subrange(0, i as int),
                self.labels == old(self).labels,
            decreases bytes@.len() - i,
        {
            write_u8(&mut self.buffer, bytes[i]);
            assert(bytes@.subrange(0, i + 1) =~= bytes@.subrange(0, i as int).push(bytes@[i as int]));
            i = i + 1;
        }
        assert(bytes@.subrange(0, i as int) =~= bytes@);
    }

    pub fn get_serialized_message(&self) -> (r: Vec<u8>)
        ensures
            r@ == self@,
    {
        self.buffer.clone()
    }

    pub fn len(&self) -> (r: usize)
        ensures
            r == self@.len(),
    {
        self.buffer.len()
    }

    /// Writes the entire buffer of the other writer to this one.
    pub fn merge(&mut self, other: &mut Writer)
        ensures
            final(self)@ == old(self)@ + old(other)@,
            forall|k: Seq<char>| #[trigger] final(self).label_offset(k) == old(self).label_offset(k),
            *final(other) == *old(other),
    {
        self.write_bytes(other.buffer.as_slice());
    }

    /// Records that `label` starts at the current end of the output.
    pub fn track_label(&mut self, label: String)
        ensures
            final(self)@ == old(self)@,
            final(self).label_offset(label@) == Some(old(self)@.len() as usize),
            forall|k: Seq<char>|
                k != label@ ==> #[trigger] final(self).label_offset(k) == old(self).label_offset(k),
    {
        let at = self.buffer.len();
        self.labels.push((label, at));
        assert(self.labels@.drop_last() =~= old(self).labels@);
    }

    pub fn lookup_label(&self, label: &String) -> (r: Option<usize>)
        ensures
            r == self.label_offset(label@),
    {
        let mut i: usize = self.labels.len();
        assert(self.labels@.subrange(0, i as int) =~= self.labels@);
        while i > 0
            invariant
                i <= self.labels@.len(),
                latest_offset(self.labels@, label@) == latest_offset(
                    self.labels@.subrange(0, i as int),
                    label@,
                ),
            decreases i,
        {
            let ghost prefix = self.labels@.subrange(0, i as int);
            assert(prefix.drop_last() =~= self.labels@.subrange(0, i - 1));
            if self.labels[i - 1].0 == *label {
                return Some(self.labels[i - 1].1);
            }
            i = i - 1;
        }
        None
    }
}

} // verus!
