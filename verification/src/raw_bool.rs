use vstd::prelude::*;

verus! {

/// The bit stored at position `i` of a packed byte sequence,
/// least-significant bit of each byte first.
pub open spec fn bit_of(body: Seq<u8>, i: int) -> bool {
    (body[i / 8] >> ((i % 8) as u8)) & 1 == 1
}

/// Dense boolean storage packed one bit per flag, not one byte.
#[derive(Debug)]
pub struct RawBool {
    pub len: usize,
    pub body: Vec<u8>,
}

impl View for RawBool {
    type V = Seq<bool>;

    open spec fn view(&self) -> Seq<bool> {
        Seq::new(self.len as nat, |i: int| bit_of(self.body@, i))
    }
}

impl RawBool {
    /// The byte vector holds exactly the bytes the flags need, and the
    /// padding bits past `len` in the last byte are all clear.
    pub open spec fn wf(self) -> bool {
        &&& self.body@.len() == (self.len + 7) / 8
        &&& forall|i: int|
            self.len <= i < self.body@.len() * 8 ==> !bit_of(self.body@, i)
    }

    pub fn new() -> (r: Self)
        ensures
            r.wf(),
            r.len == 0,
            r@ == Seq::<bool>::empty(),
    {
        let r = Self { len: 0, body: Vec::new() };
        proof {
            assert(r@ =~= Seq::<bool>::empty());
        }
        r
    }

    pub fn with_capacity(capacity: usize) -> (r: Self)
        ensures
            r.wf(),
            r.len == 0,
            r@ == Seq::<bool>::empty(),
    {
        // one spare byte when capacity is a multiple of eight; harmless
        let byte_capacity = capacity / 8 + 1;
        let r = Self { len: 0, body: Vec::with_capacity(byte_capacity) };
        proof {
            assert(r@ =~= Seq::<bool>::empty());
        }
        r
    }

    /// Appends one flag at the end.
    pub fn push(&mut self, val: bool)
        requires
            old(self).wf(),
            old(self).len < usize::MAX,
        ensures
            final(self).wf(),
            final(self)@ == old(self)@.push(val),
    {
        let byte_pos = self.len / 8;
        let bit_pos = self.len % 8;

        if bit_pos == 0 {
            // the previous byte is full: open a fresh one
            self.body.push(0);
        }
        proof {
            assert(self.body@.len() == (self.len + 8) / 8) by {
                if old(self).len % 8 == 0 {
                    assert((old(self).len + 7) / 8 == old(self).len / 8);
                } else {
                    assert((old(self).len + 7) / 8 == old(self).len / 8 + 1);
                }
            }
            assert(byte_pos < self.body@.len());
        }

        if val {
            let b = self.body[byte_pos];
            self.body[byte_pos] = b | (1u8 << (bit_pos as u8));
        }
        self.len = self.len + 1;

        proof {
            let obody = old(self).body@;
            let nbody = self.body@;
            let grown = if old(self).len % 8 == 0 { obody.push(0u8) } else { obody };
            let k = (old(self).len % 8) as u8;
            if val {
                assert(nbody == grown.update(old(self).len as int / 8, grown[old(self).len as int / 8] | (1u8 << k)));
                let gb = grown[old(self).len as int / 8];
                assert forall|j: u8| j < 8 && j != k implies
                    (((gb | (1u8 << k)) >> j) & 1 == (gb >> j) & 1) by {
                    lemma_bit_or_other(gb, k, j);
                }
                lemma_bit_or_set(gb, k);
            }
            assert forall|i: int| 0 <= i < old(self).len implies
                bit_of(nbody, i) == bit_of(obody, i) by {
                assert(i / 8 <= old(self).len as int / 8);
                if val && i / 8 == old(self).len as int / 8 {
                    assert(((i % 8) as u8) != k);
                }
            }
            assert(bit_of(nbody, old(self).len as int) == val) by {
                if !val {
                    if old(self).len % 8 == 0 {
                        assert(grown[old(self).len as int / 8] == 0);
                        assert((0u8 >> 0u8) & 1 == 0) by (bit_vector);
                    } else {
                        // the padding bit was clear already
                        assert(!bit_of(obody, old(self).len as int));
                    }
                }
            }
            assert forall|i: int| self.len <= i < nbody.len() * 8 implies
                !bit_of(nbody, i) by {
                let j = (i % 8) as u8;
                let touched = old(self).len as int / 8;
                assert(touched <= i / 8);
                if i / 8 == touched {
                    assert(j != k);
                    // the other bits of the touched byte keep their value
                    assert((grown[touched] >> j) & 1 == (nbody[touched] >> j) & 1);
                    if old(self).len % 8 == 0 {
                        assert(grown[touched] == 0);
                        assert(j < 8 ==> (0u8 >> j) & 1 == 0) by (bit_vector);
                    } else {
                        assert(!bit_of(obody, i));
                    }
                } else {
                    // a byte past the touched one: only reachable through
                    // the freshly pushed zero byte
                    assert(old(self).len % 8 == 0 && i / 8 == obody.len());
                    assert(nbody[i / 8] == 0);
                    assert(j < 8 ==> (0u8 >> j) & 1 == 0) by (bit_vector);
                }
            }
            assert(final(self)@ =~= old(self)@.push(val));
        }
    }

    /// Packs a plain boolean vector.
    pub fn new_from_vec(src: Vec<bool>) -> (r: Self)
        ensures
            r.wf(),
            r@ == src@,
    {
        let mut raw_bool = Self::new();
        let mut i: usize = 0;
        let n = src.len();
        while i < n
            invariant
                n == src@.len(),
                i <= n,
                raw_bool.wf(),
                raw_bool.len == i,
                raw_bool@ == src@.subrange(0, i as int),
            decreases n - i,
        {
            raw_bool.push(src[i]);
            i = i + 1;
            proof {
                assert(raw_bool@ =~= src@.subrange(0, i as int));
            }
        }
        proof {
            assert(raw_bool@ =~= src@);
        }
        raw_bool
    }

    /// Overwrites the flag at `index`.
    pub fn set_bit(&mut self, index: usize, value: bool)
        requires
            old(self).wf(),
            index < old(self).len,
        ensures
            final(self).wf(),
            final(self)@ == old(self)@.update(index as int, value),
    {
        let byte_pos = index / 8;
        let bit_pos = index % 8;
        proof {
            assert(byte_pos < self.body@.len());
        }

        let b = self.body[byte_pos];
        let k = bit_pos as u8;
        if value {
            self.body[byte_pos] = b | (1u8 << k);
        } else {
            self.body[byte_pos] = b & !(1u8 << k);
        }

        proof {
            let obody = old(self).body@;
            let nbody = self.body@;
            if value {
                lemma_bit_or_set(b, k);
                assert forall|j: u8| j < 8 && j != k implies
                    (((b | (1u8 << k)) >> j) & 1 == (b >> j) & 1) by {
                    lemma_bit_or_other(b, k, j);
                }
            } else {
                lemma_bit_and_clear(b, k);
                assert forall|j: u8| j < 8 && j != k implies
                    (((b & !(1u8 << k)) >> j) & 1 == (b >> j) & 1) by {
                    lemma_bit_and_other(b, k, j);
                }
            }
            assert forall|i: int| 0 <= i < nbody.len() * 8 && i != index implies
                bit_of(nbody, i) == bit_of(obody, i) by {
                if i / 8 == byte_pos {
                    assert(((i % 8) as u8) != k);
                }
            }
            assert(bit_of(nbody, index as int) == value);
            assert(final(self)@ =~= old(self)@.update(index as int, value));
        }
    }

    /// Reads the flag at `index`.
    pub fn get(&self, index: usize) -> (r: bool)
        requires
            self.wf(),
            index < self.len,
        ensures
            r == self@[index as int],
    {
        let byte_pos = index / 8;
        let bit_pos = index % 8;
        proof {
            assert(byte_pos < self.body@.len());
        }
        let byte = self.body[byte_pos];
        ((byte >> (bit_pos as u8)) & 1) == 1
    }

    /// Walks the flags front to back.
    pub fn iter(&self) -> (r: RawBoolIter<'_>)
        requires
            self.wf(),
        ensures
            r.raw_bool == self,
            r.current_index == 0,
    {
        RawBoolIter { raw_bool: self, current_index: 0 }
    }
}

/// A cursor over a `RawBool`, advanced by its `next` method.
pub struct RawBoolIter<'a> {
    pub raw_bool: &'a RawBool,
    pub current_index: usize,
}

impl<'a> RawBoolIter<'a> {
    /// The next flag, or `None` once every flag has been handed out.
    pub fn next(&mut self) -> (r: Option<bool>)
        requires
            old(self).raw_bool.wf(),
        ensures
            final(self).raw_bool == old(self).raw_bool,
            old(self).current_index < old(self).raw_bool@.len() ==> {
                &&& r == Some(old(self).raw_bool@[old(self).current_index as int])
                &&& final(self).current_index == old(self).current_index + 1
            },
            old(self).current_index >= old(self).raw_bool@.len() ==> {
                &&& r is None
                &&& final(self).current_index == old(self).current_index
            },
    {
        if self.current_index < self.raw_bool.len {
            let bit = self.raw_bool.get(self.current_index);
            self.current_index = self.current_index + 1;
            Some(bit)
        } else {
            None
        }
    }
}

/// A fresh vector holding the same bytes.
fn copy_bytes(v: &Vec<u8>) -> (r: Vec<u8>)
    ensures
        r@ == v@,
{
    let mut r: Vec<u8> = Vec::new();
    let n = v.len();
    let mut i: usize = 0;
    while i < n
        invariant
            n == v@.len(),
            i <= n,
            r@ == v@.subrange(0, i as int),
        decreases n - i,
    {
        r.push(v[i]);
        i = i + 1;
        proof {
            assert(r@ =~= v@.subrange(0, i as int));
        }
    }
    proof {
        assert(r@ =~= v@);
    }
    r
}

impl Clone for RawBool {
    fn clone(&self) -> (r: Self)
        ensures
            r.len == self.len,
            r.body@ == self.body@,
    {
        Self { len: self.len, body: copy_bytes(&self.body) }
    }
}

proof fn lemma_bit_or_set(b: u8, k: u8)
    requires
        k < 8,
    ensures
        ((b | (1u8 << k)) >> k) & 1 == 1,
{
    assert(k < 8 ==> ((b | (1u8 << k)) >> k) & 1 == 1) by (bit_vector);
}

proof fn lemma_bit_or_other(b: u8, k: u8, j: u8)
    requires
        k < 8,
        j < 8,
        j != k,
    ensures
        ((b | (1u8 << k)) >> j) & 1 == (b >> j) & 1,
{
    assert(k < 8 && j < 8 && j != k ==> ((b | (1u8 << k)) >> j) & 1 == (b >> j) & 1)
        by (bit_vector);
}

proof fn lemma_bit_and_clear(b: u8, k: u8)
    requires
        k < 8,
    ensures
        ((b & !(1u8 << k)) >> k) & 1 == 0,
{
    assert(k < 8 ==> ((b & !(1u8 << k)) >> k) & 1 == 0) by (bit_vector);
}

proof fn lemma_bit_and_other(b: u8, k: u8, j: u8)
    requires
        k < 8,
        j < 8,
        j != k,
    ensures
        ((b & !(1u8 << k)) >> j) & 1 == (b >> j) & 1,
{
    assert(k < 8 && j < 8 && j != k ==> ((b & !(1u8 << k)) >> j) & 1 == (b >> j) & 1)
        by (bit_vector);
}

} // verus!
