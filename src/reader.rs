use vstd::prelude::*;

verus! {

/// `2` raised to the power `n`.
pub open spec fn two_pow(n: nat) -> nat
    decreases n,
{
    if n == 0 {
        1
    } else {
        2 * two_pow((n - 1) as nat)
    }
}

/// Bit `i` of `data`, read most significant bit of each byte first.
pub open spec fn bit_at(data: Seq<u8>, i: int) -> bool {
    (data[i / 8] >> ((7 - i % 8) as u8)) & 1u8 == 1u8
}

/// The `n` bits of `data` starting at bit `pos`, as an unsigned integer whose
/// high bit is the first bit read.
pub open spec fn bits_value(data: Seq<u8>, pos: int, n: nat) -> nat
    decreases n,
{
    if n == 0 {
        0
    } else {
        2 * bits_value(data, pos, (n - 1) as nat) + if bit_at(data, pos + n - 1) {
            1nat
        } else {
            0nat
        }
    }
}

pub proof fn lemma_two_pow_mono(a: nat, b: nat)
    requires
        a <= b,
    ensures
        two_pow(a) <= two_pow(b),
    decreases b,
{
    if a < b {
        lemma_two_pow_mono(a, (b - 1) as nat);
    }
}

pub proof fn lemma_two_pow_16()
    ensures
        two_pow(16) == 65536,
{
    reveal_with_fuel(two_pow, 17);
}

/// The length in bits of an end-of-line marker.
pub const EOL_LEN: u8 = 12;

/// The bits of an end-of-line marker: eleven zeros and a one.
pub const EOL_BITS: u16 = 1;

/// A bit stream over a sequence of bytes, most significant bit first.
pub struct ByteReader {
    pub data: Vec<u8>,
    /// Number of bits already consumed.
    pub pos: usize,
}

impl ByteReader {
    /// The number of bits in the stream.
    pub open spec fn total(&self) -> int {
        8 * self.data@.len() as int
    }

    pub open spec fn wf(&self) -> bool {
        self.pos <= self.total() && self.total() <= usize::MAX
    }

    /// Whether the `n` bits at `pos` exist and read as `value`.
    pub open spec fn bits_at(&self, pos: int, n: nat, value: nat) -> bool {
        pos + n <= self.total() && bits_value(self.data@, pos, n) == value
    }

    pub fn new(data: Vec<u8>) -> (r: ByteReader)
        requires
            data@.len() <= usize::MAX / 8,
        ensures
            r.wf(),
            r.data@ == data@,
            r.pos == 0,
    {
        ByteReader { data, pos: 0 }
    }

    /// The number of bits left to read.
    pub fn remaining(&self) -> (r: usize)
        requires
            self.wf(),
        ensures
            r == self.total() - self.pos,
    {
        self.data.len() * 8 - self.pos
    }

    /// The next `n` bits, high bit first, or `None` where fewer remain.
    pub fn peek(&self, n: u8) -> (r: Option<u16>)
        requires
            self.wf(),
            n <= 16,
        ensures
            r.is_some() <==> self.pos + n <= self.total(),
            r matches Some(v) ==> v == bits_value(self.data@, self.pos as int, n as nat),
    {
        if n as usize > self.remaining() {
            return None;
        }
        let mut v: u32 = 0;
        let mut i: u8 = 0;
        while i < n
            invariant
                self.wf(),
                i <= n <= 16,
                self.pos + n <= self.total(),
                v == bits_value(self.data@, self.pos as int, i as nat),
                v < two_pow(i as nat),
            decreases n - i,
        {
            let p: usize = self.pos + i as usize;
            let byte: u8 = self.data[p / 8];
            let sh: u8 = (7 - p % 8) as u8;
            let bit: u8 = (byte >> sh) & 1u8;
            assert(bit <= 1u8) by (bit_vector)
                requires
                    bit == (byte >> sh) & 1u8,
            ;
            proof {
                lemma_two_pow_mono(i as nat, 16);
                lemma_two_pow_16();
                assert(bit_at(self.data@, self.pos + i) == (bit == 1u8));
            }
            v = v * 2 + bit as u32;
            i = i + 1;
        }
        proof {
            lemma_two_pow_mono(n as nat, 16);
            lemma_two_pow_16();
        }
        Some(v as u16)
    }

    /// Advances past `n` bits.
    pub fn consume(&mut self, n: u8)
        requires
            old(self).wf(),
            old(self).pos + n <= old(self).total(),
        ensures
            final(self).wf(),
            final(self).data@ == old(self).data@,
            final(self).pos == old(self).pos + n,
    {
        self.pos = self.pos + n as usize;
    }

    /// Consumes the `len` bits `bits` where they come next; otherwise leaves
    /// the stream as it was and returns `None`.
    pub fn expect(&mut self, bits: u16, len: u8) -> (r: Option<()>)
        requires
            old(self).wf(),
            len <= 16,
        ensures
            final(self).wf(),
            final(self).data@ == old(self).data@,
            r.is_some() <==> old(self).bits_at(old(self).pos as int, len as nat, bits as nat),
            r.is_some() ==> final(self).pos == old(self).pos + len,
            r.is_none() ==> final(self).pos == old(self).pos,
    {
        match self.peek(len) {
            Some(v) => {
                if v == bits {
                    self.consume(len);
                    Some(())
                } else {
                    None
                }
            },
            None => None,
        }
    }
}

} // verus!
