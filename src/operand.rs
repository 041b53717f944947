use vstd::prelude::*;

verus! {

/// Width of an operand in bytes.
pub const WORD_BYTES: usize = 32;

/// `256` raised to `n`: the weight of the byte `n` places from the end of a
/// big-endian sequence.
pub open spec fn radix_pow(n: nat) -> nat
    decreases n,
{
    if n == 0 {
        1
    } else {
        256 * radix_pow((n - 1) as nat)
    }
}

/// The unsigned integer that `s` encodes, most significant byte first.
pub open spec fn be_value(s: Seq<u8>) -> nat
    decreases s.len(),
{
    if s.len() == 0 {
        0
    } else {
        be_value(s.drop_last()) * 256 + s.last() as nat
    }
}

/// The codec's rule for one operand: the bytes of `s` go to the low-index
/// positions of a zeroed 32-byte word, and bytes past the word are ignored.
pub open spec fn padded_word(s: Seq<u8>) -> Seq<u8> {
    Seq::new(32, |i: int| if i < s.len() { s[i] } else { 0u8 })
}

/// Byte-wise bitwise complement.
pub open spec fn complement_bytes(s: Seq<u8>) -> Seq<u8> {
    Seq::new(s.len(), |i: int| !s[i])
}

/// Largest value an operand can hold.
pub open spec fn word_max() -> nat {
    (radix_pow(32) - 1) as nat
}

/// `i128::MIN` sign-extended to 256 bits: `2^256 - 2^127`.
pub open spec fn i128_min_word() -> nat {
    (radix_pow(32) - 128 * radix_pow(15)) as nat
}

pub proof fn lemma_radix_pow_positive(n: nat)
    ensures
        radix_pow(n) >= 1,
    decreases n,
{
    if n > 0 {
        lemma_radix_pow_positive((n - 1) as nat);
    }
}

/// The value of a concatenation splits at the boundary.
pub proof fn lemma_be_value_append(a: Seq<u8>, b: Seq<u8>)
    ensures
        be_value(a + b) == be_value(a) * radix_pow(b.len()) + be_value(b),
    decreases b.len(),
{
    if b.len() == 0 {
        assert(a + b =~= a);
        assert(radix_pow(0) == 1);
        assert(be_value(a) * 1 == be_value(a));
    } else {
        let b0 = b.drop_last();
        assert((a + b).drop_last() =~= a + b0);
        assert((a + b).last() == b.last());
        lemma_be_value_append(a, b0);
        let x = be_value(a);
        let p = radix_pow(b0.len());
        let y = be_value(b0);
        let l = b.last() as nat;
        assert(radix_pow(b.len()) == 256 * p);
        assert(be_value(b) == y * 256 + l);
        assert(be_value(a + b) == be_value(a + b0) * 256 + l);
        assert((x * p + y) * 256 + l == x * (256 * p) + (y * 256 + l)) by (nonlinear_arith);
    }
}

/// A word of zero bytes has value zero.
pub proof fn lemma_be_value_zeros(s: Seq<u8>)
    requires
        forall|i: int| 0 <= i < s.len() ==> s[i] == 0,
    ensures
        be_value(s) == 0,
    decreases s.len(),
{
    if s.len() > 0 {
        lemma_be_value_zeros(s.drop_last());
    }
}

/// A value and its complement add up to the largest value of that width.
pub proof fn lemma_be_value_complement(s: Seq<u8>)
    ensures
        be_value(complement_bytes(s)) + be_value(s) == radix_pow(s.len()) - 1,
    decreases s.len(),
{
    if s.len() > 0 {
        let s0 = s.drop_last();
        let c = complement_bytes(s);
        assert(c.drop_last() =~= complement_bytes(s0));
        lemma_be_value_complement(s0);
        let b = s.last();
        assert(!b == 255u8 - b) by (bit_vector);
        let p = radix_pow(s0.len());
        lemma_radix_pow_positive(s0.len());
        let cv = be_value(complement_bytes(s0));
        let sv = be_value(s0);
        assert((cv * 256 + (255 - b)) + (sv * 256 + b) == (cv + sv) * 256 + 255) by (nonlinear_arith);
    }
}

pub proof fn lemma_radix_pow_add(a: nat, b: nat)
    ensures
        radix_pow(a + b) == radix_pow(a) * radix_pow(b),
    decreases a,
{
    if a > 0 {
        lemma_radix_pow_add((a - 1) as nat, b);
        assert(radix_pow(a + b) == 256 * radix_pow((a - 1 + b) as nat));
        let p = radix_pow((a - 1) as nat);
        let q = radix_pow(b);
        assert(radix_pow(a) == 256 * p);
        assert(256 * (p * q) == (256 * p) * q) by (nonlinear_arith);
    } else {
        assert(radix_pow(0) == 1);
        assert(a + b == b);
    }
}

/// A 256-bit unsigned integer, stored as 32 bytes, most significant first.
#[derive(Debug, Clone, Copy)]
pub struct Operand {
    pub bytes: [u8; 32],
}

impl PartialEq for Operand {
    fn eq(&self, other: &Operand) -> (r: bool) {
        let mut i: usize = 0;
        while i < WORD_BYTES
            invariant
                i <= 32,
                forall|j: int| 0 <= j < i ==> self.bytes@[j] == other.bytes@[j],
            decreases 32 - i,
        {
            if self.bytes[i] != other.bytes[i] {
                return false;
            }
            i = i + 1;
        }
        assert(self.bytes@ =~= other.bytes@);
        true
    }
}

impl vstd::std_specs::cmp::PartialEqSpecImpl for Operand {
    open spec fn obeys_eq_spec() -> bool {
        true
    }

    open spec fn eq_spec(&self, other: &Operand) -> bool {
        self.bytes@ == other.bytes@
    }
}

impl Operand {
    /// The integer the operand stands for.
    pub open spec fn value(&self) -> nat {
        be_value(self.bytes@)
    }

    pub fn zero() -> (r: Operand)
        ensures
            forall|i: int| 0 <= i < 32 ==> r.bytes@[i] == 0,
            r.value() == 0,
    {
        let r = Operand { bytes: [0u8; 32] };
        proof {
            lemma_be_value_zeros(r.bytes@);
        }
        r
    }

    /// The operand whose value is `v`.
    pub fn from_u64(v: u64) -> (r: Operand)
        ensures
            r.value() == v,
    {
        let mut bytes = [0u8; 32];
        let mut x: u64 = v;
        let mut k: usize = 0;
        proof {
            assert(bytes@.subrange(32, 32) =~= Seq::<u8>::empty());
            assert(be_value(Seq::<u8>::empty()) == 0);
            assert(radix_pow(0) == 1);
            assert(v == x * radix_pow(0) + be_value(bytes@.subrange(32, 32)));
        }
        while k < 8
            invariant
                k <= 8,
                bytes@.len() == 32,
                forall|i: int| 0 <= i < 32 - k ==> bytes@[i] == 0,
                v == x * radix_pow(k as nat) + be_value(bytes@.subrange(32 - k, 32)),
            decreases 8 - k,
        {
            let d: u8 = (x % 256) as u8;
            let ghost old_bytes = bytes@;
            let ghost p = radix_pow(k as nat);
            bytes[31 - k] = d;
            proof {
                let t = old_bytes.subrange(32 - k, 32);
                assert(bytes@.subrange(31 - k, 32) =~= seq![d] + t);
                lemma_be_value_append(seq![d], t);
                assert(seq![d].drop_last() =~= Seq::<u8>::empty());
                assert(be_value(Seq::<u8>::empty()) == 0);
                assert(seq![d].last() == d);
                assert(be_value(seq![d]) == be_value(seq![d].drop_last()) * 256 + d);
                assert(bytes@.subrange(32 - k, 32) =~= t);
                let xi = x as int;
                assert(xi == (xi / 256) * 256 + d) by (nonlinear_arith)
                    requires d == xi % 256, xi >= 0;
                assert(xi * p == (xi / 256) * (256 * p) + d * p) by (nonlinear_arith)
                    requires xi == (xi / 256) * 256 + d;
            }
            x = x / 256;
            k = k + 1;
        }
        proof {
            let t = bytes@.subrange(24, 32);
            let z = bytes@.subrange(0, 24);
            assert(bytes@ =~= z + t);
            lemma_be_value_zeros(z);
            lemma_be_value_append(z, t);
            reveal_with_fuel(radix_pow, 9);
            assert(radix_pow(8) == 0x1_0000_0000_0000_0000);
            let xi = x as int;
            assert(xi == 0) by (nonlinear_arith)
                requires v == xi * 0x1_0000_0000_0000_0000 + be_value(t), v < 0x1_0000_0000_0000_0000, xi >= 0;
        }
        Operand { bytes }
    }

    /// The largest operand, `2^256 - 1`: every bit set.
    pub fn max_value() -> (r: Operand)
        ensures
            forall|i: int| 0 <= i < 32 ==> r.bytes@[i] == 0xffu8,
            r.value() == word_max(),
    {
        let r = Operand::zero().complement();
        proof {
            assert forall|i: int| 0 <= i < 32 implies r.bytes@[i] == 0xffu8 by {
                assert(!0u8 == 0xffu8) by (bit_vector);
            }
        }
        r
    }

    /// `i128::MIN` sign-extended to 256 bits: the top 129 bits set, the rest clear.
    pub fn i128_min() -> (r: Operand)
        ensures
            forall|i: int| 0 <= i < 16 ==> r.bytes@[i] == 0xffu8,
            r.bytes@[16] == 0x80u8,
            forall|i: int| 17 <= i < 32 ==> r.bytes@[i] == 0u8,
            r.value() == i128_min_word(),
    {
        let mut bytes = [0u8; 32];
        let mut i: usize = 0;
        while i < 16
            invariant
                i <= 16,
                bytes@.len() == 32,
                forall|j: int| 0 <= j < i ==> bytes@[j] == 0xffu8,
                forall|j: int| 16 <= j < 32 ==> bytes@[j] == 0u8,
            decreases 16 - i,
        {
            bytes[i] = 0xff;
            i = i + 1;
        }
        bytes[16] = 0x80;
        proof {
            let a = bytes@.subrange(0, 16);
            let z = bytes@.subrange(17, 32);
            let m = seq![0x80u8];
            assert(bytes@ =~= (a + m) + z);
            lemma_be_value_zeros(z);
            lemma_be_value_append(a + m, z);
            lemma_be_value_append(a, m);
            assert(m.drop_last() =~= Seq::<u8>::empty());
            assert(be_value(Seq::<u8>::empty()) == 0);
            assert(be_value(m) == 128);
            let za = Seq::new(16, |j: int| 0u8);
            assert(a =~= complement_bytes(za)) by {
                assert(!0u8 == 0xffu8) by (bit_vector);
            }
            lemma_be_value_zeros(za);
            lemma_be_value_complement(za);
            reveal_with_fuel(radix_pow, 2);
            lemma_radix_pow_add(16, 16);
            lemma_radix_pow_add(1, 15);
            let p16 = radix_pow(16);
            let p15 = radix_pow(15);
            assert(p16 == 256 * p15);
            assert(((p16 - 1) * 256 + 128) * p15 == p16 * p16 - 128 * p15) by (nonlinear_arith)
                requires p16 == 256 * p15;
        }
        Operand { bytes }
    }

    /// Bitwise complement of every bit.
    pub fn complement(&self) -> (r: Operand)
        ensures
            r.bytes@ == complement_bytes(self.bytes@),
            r.value() == word_max() - self.value(),
    {
        let mut bytes = [0u8; 32];
        let mut i: usize = 0;
        while i < WORD_BYTES
            invariant
                i <= 32,
                bytes@.len() == 32,
                forall|j: int| 0 <= j < i ==> bytes@[j] == !self.bytes@[j],
            decreases 32 - i,
        {
            bytes[i] = !self.bytes[i];
            i = i + 1;
        }
        proof {
            assert(bytes@ =~= complement_bytes(self.bytes@));
            lemma_be_value_complement(self.bytes@);
        }
        Operand { bytes }
    }

    /// The codec's rule: the first (at most 32) bytes of `s` fill the word
    /// from its most significant end, and the rest of the word stays zero.
    pub fn from_slice_padded(s: &[u8]) -> (r: Operand)
        ensures
            r.bytes@ == padded_word(s@),
    {
        let mut bytes = [0u8; 32];
        let mut i: usize = 0;
        while i < WORD_BYTES && i < s.len()
            invariant
                i <= 32,
                i <= s@.len(),
                bytes@.len() == 32,
                forall|j: int| 0 <= j < i ==> bytes@[j] == s@[j],
                forall|j: int| i <= j < 32 ==> bytes@[j] == 0u8,
            decreases 32 - i,
        {
            bytes[i] = s[i];
            i = i + 1;
        }
        assert(bytes@ =~= padded_word(s@));
        Operand { bytes }
    }

    /// The operand that `s` encodes big-endian, for `s` of at most 32 bytes.
    pub fn from_be_slice(s: &[u8]) -> (r: Operand)
        requires
            s@.len() <= 32,
        ensures
            r.value() == be_value(s@),
    {
        let mut bytes = [0u8; 32];
        let off: usize = WORD_BYTES - s.len();
        let mut i: usize = 0;
        while i < s.len()
            invariant
                off + s@.len() == 32,
                i <= s@.len(),
                bytes@.len() == 32,
                forall|j: int| 0 <= j < i ==> bytes@[off + j] == s@[j],
                forall|j: int| 0 <= j < off ==> bytes@[j] == 0u8,
            decreases s@.len() - i,
        {
            bytes[off + i] = s[i];
            i = i + 1;
        }
        proof {
            let z = bytes@.subrange(0, off as int);
            assert(bytes@ =~= z + s@);
            lemma_be_value_zeros(z);
            lemma_be_value_append(z, s@);
        }
        Operand { bytes }
    }

    /// The 32-byte big-endian encoding.
    pub fn to_be_bytes(&self) -> (r: Vec<u8>)
        ensures
            r@ == self.bytes@,
    {
        let mut r: Vec<u8> = Vec::new();
        let mut i: usize = 0;
        while i < WORD_BYTES
            invariant
                i <= 32,
                r@ == self.bytes@.subrange(0, i as int),
            decreases 32 - i,
        {
            r.push(self.bytes[i]);
            i = i + 1;
        }
        assert(r@ =~= self.bytes@);
        r
    }
}

/// An ordered group of operands: one test case for one operation.
#[derive(Debug)]
pub struct OperandTuple {
    pub items: Vec<Operand>,
}

impl OperandTuple {
    /// Number of operands held.
    pub open spec fn width(&self) -> nat {
        self.items@.len()
    }

    pub fn len(&self) -> (r: usize)
        ensures
            r == self.width(),
    {
        self.items.len()
    }

    pub fn get(&self, i: usize) -> (r: Operand)
        requires
            i < self.width(),
        ensures
            r == self.items@[i as int],
    {
        self.items[i]
    }

    /// An independent copy holding the same operands.
    pub fn duplicate(&self) -> (r: OperandTuple)
        ensures
            r.items@ == self.items@,
    {
        let mut items: Vec<Operand> = Vec::new();
        let mut i: usize = 0;
        while i < self.items.len()
            invariant
                i <= self.items@.len(),
                items@ == self.items@.subrange(0, i as int),
            decreases self.items@.len() - i,
        {
            items.push(self.items[i]);
            i = i + 1;
        }
        assert(items@ =~= self.items@);
        OperandTuple { items }
    }
}

} // verus!
