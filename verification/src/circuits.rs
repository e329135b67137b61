//! Circuit model: the closed set of computation kinds a node can prove, the
//! fixed identity each kind verifies against, the word sequence a kind feeds
//! to the guest program, and the little-endian journal encoding the guest
//! commits its public output with. The proving engine itself is an external
//! capability; everything here is the node's own bookkeeping about it.

use vstd::prelude::*;
use vstd::arithmetic::power2::{
    pow2, lemma_pow2_adds, lemma_pow2_pos, lemma_pow2_strictly_increases, lemma2_to64,
};

verus! {

/// Fixed identifier a computation kind's proof must verify against
/// (verification-key analogue). Opaque to everyone but the verifier.
#[derive(Debug)]
pub struct CircuitId {
    pub words: [u32; 8],
}

impl View for CircuitId {
    type V = Seq<u32>;

    open spec fn view(&self) -> Seq<u32> {
        self.words@
    }
}

impl CircuitId {
    /// Exact word-for-word comparison of two circuit identities.
    pub fn matches(&self, other: &CircuitId) -> (r: bool)
        ensures
            r == (self@ == other@),
    {
        let mut i: usize = 0;
        while i < 8
            invariant
                i <= 8,
                forall|j: int| 0 <= j < i ==> self.words@[j] == other.words@[j],
            decreases 8 - i,
        {
            if self.words[i] != other.words[i] {
                assert(self@ != other@);
                return false;
            }
            i += 1;
        }
        assert(self@ =~= other@);
        true
    }
}

/// Inputs of the right-triangle hypotenuse circuit.
pub struct Hypotenuse {
    pub x: u32,
    pub y: u32,
}

/// Coefficients of the linear polynomial circuit.
pub struct LinearPolynomial {
    pub a: u32,
    pub b: u32,
    pub c: u32,
}

/// The closed set of computation kinds. Adding a kind means adding a variant
/// and its identity mapping; dispatch elsewhere never changes.
pub enum CircuitInputs {
    Hypotenuse(Hypotenuse),
    LinearPolynomial(LinearPolynomial),
}

/// Identity of the hypotenuse circuit.
pub open spec fn spec_hypotenuse_id() -> Seq<u32> {
    seq![
        0x48595031u32,
        0x6b21900du32,
        0x1d53a0c3u32,
        0x6de149aau32,
        0x32cf75b1u32,
        0x09c4e70fu32,
        0x55e1a2d9u32,
        0x7b08c366u32,
    ]
}

/// Identity of the linear polynomial circuit.
pub open spec fn spec_linear_polynomial_id() -> Seq<u32> {
    seq![
        0x4c504f4cu32,
        0x3fa61e02u32,
        0x5e8b12f7u32,
        0x21d9c04eu32,
        0x69aa3b85u32,
        0x102f6cd4u32,
        0x4dc8e913u32,
        0x0b775a28u32,
    ]
}

/// The fixed identity of each computation kind.
pub open spec fn spec_circuit_id(inputs: CircuitInputs) -> Seq<u32> {
    match inputs {
        CircuitInputs::Hypotenuse(_) => spec_hypotenuse_id(),
        CircuitInputs::LinearPolynomial(_) => spec_linear_polynomial_id(),
    }
}

/// The words a computation kind writes into the guest environment, in order.
pub open spec fn spec_input_words(inputs: CircuitInputs) -> Seq<u32> {
    match inputs {
        CircuitInputs::Hypotenuse(h) => seq![h.x, h.y],
        CircuitInputs::LinearPolynomial(p) => seq![p.a, p.b, p.c],
    }
}

impl CircuitInputs {
    /// Resolve the circuit identity this kind's proofs verify against.
    /// The mapping is per-variant and depends on nothing else.
    pub fn circuit_id(&self) -> (r: CircuitId)
        ensures
            r@ == spec_circuit_id(*self),
    {
        match self {
            CircuitInputs::Hypotenuse(_) => {
                let r = CircuitId {
                    words: [
                        0x48595031u32,
                        0x6b21900du32,
                        0x1d53a0c3u32,
                        0x6de149aau32,
                        0x32cf75b1u32,
                        0x09c4e70fu32,
                        0x55e1a2d9u32,
                        0x7b08c366u32,
                    ],
                };
                assert(r@ =~= spec_hypotenuse_id());
                r
            },
            CircuitInputs::LinearPolynomial(_) => {
                let r = CircuitId {
                    words: [
                        0x4c504f4cu32,
                        0x3fa61e02u32,
                        0x5e8b12f7u32,
                        0x21d9c04eu32,
                        0x69aa3b85u32,
                        0x102f6cd4u32,
                        0x4dc8e913u32,
                        0x0b775a28u32,
                    ],
                };
                assert(r@ =~= spec_linear_polynomial_id());
                r
            },
        }
    }

    /// The words this kind hands to the guest program, in the order the
    /// guest reads them.
    pub fn input_words(&self) -> (r: Vec<u32>)
        ensures
            r@ == spec_input_words(*self),
    {
        let mut words: Vec<u32> = Vec::new();
        match self {
            CircuitInputs::Hypotenuse(h) => {
                words.push(h.x);
                words.push(h.y);
                assert(words@ =~= spec_input_words(*self));
            },
            CircuitInputs::LinearPolynomial(p) => {
                words.push(p.a);
                words.push(p.b);
                words.push(p.c);
                assert(words@ =~= spec_input_words(*self));
            },
        }
        words
    }
}

/// Little-endian byte encoding of a 32-bit public output, as the guest
/// commits it to the journal.
pub open spec fn spec_journal_of(v: u32) -> Seq<u8> {
    seq![
        (v as int % 256) as u8,
        (v as int / 256 % 256) as u8,
        (v as int / 65536 % 256) as u8,
        (v as int / 16777216) as u8,
    ]
}

/// The value a well-formed journal decodes to: exactly four bytes,
/// little-endian.
pub open spec fn spec_journal_value(journal: Seq<u8>) -> Option<u32> {
    if journal.len() == 4 {
        Some(
            (journal[0] + journal[1] * 256 + journal[2] * 65536 + journal[3] * 16777216) as u32,
        )
    } else {
        None
    }
}

/// Encode a public output as journal bytes.
pub fn encode_journal(v: u32) -> (r: Vec<u8>)
    ensures
        r@ == spec_journal_of(v),
{
    let mut bytes: Vec<u8> = Vec::new();
    bytes.push((v % 256) as u8);
    bytes.push((v / 256 % 256) as u8);
    bytes.push((v / 65536 % 256) as u8);
    bytes.push((v / 16777216) as u8);
    assert(bytes@ =~= spec_journal_of(v));
    bytes
}

/// Decode journal bytes back to the committed public output;
/// `None` exactly when the journal is not four bytes long.
pub fn decode_journal(journal: &[u8]) -> (r: Option<u32>)
    ensures
        r == spec_journal_value(journal@),
{
    if journal.len() != 4 {
        return None;
    }
    let b0 = journal[0] as u32;
    let b1 = journal[1] as u32;
    let b2 = journal[2] as u32;
    let b3 = journal[3] as u32;
    Some(b0 + b1 * 256 + b2 * 65536 + b3 * 16777216)
}

/// A journal always decodes back to the value it was encoded from.
pub proof fn lemma_journal_round_trip(v: u32)
    ensures
        spec_journal_value(spec_journal_of(v)) == Some(v),
{
    let n = v as int;
    assert(n % 256 + n / 256 % 256 * 256 + n / 65536 % 256 * 65536 + n / 16777216 * 16777216
        == n) by (nonlinear_arith)
        requires
            0 <= n < 0x1_0000_0000,
    ;
}

/// `r` is the integer square root of `n`.
pub open spec fn is_isqrt(n: int, r: int) -> bool {
    r * r <= n < (r + 1) * (r + 1)
}

/// Integer square root by the classic binary digit-by-digit method, as the
/// guest program computes it.
pub fn sqrt_u32(number: u32) -> (r: u32)
    ensures
        is_isqrt(number as int, r as int),
{
    let mut n: u32 = number;
    let mut result: u32 = 0;
    let mut bit: u32 = 0x4000_0000;

    proof {
        lemma2_to64();
    }
    let ghost mut j: nat = 15nat;

    // Walk `bit` down to the highest power of four at most `number`
    // (or to zero when `number` is zero).
    while bit > n
        invariant
            n == number,
            bit != 0 ==> bit == pow2(2 * j) && j <= 15,
            bit != 0 ==> 4 * bit > number,
            bit == 0 ==> number == 0,
        decreases bit,
    {
        proof {
            lemma2_to64();
            if bit == 1 {
                // 1 > n forces number == 0, and bit is about to reach 0.
            } else {
                assert(j >= 1) by {
                    if j == 0 {
                        assert(pow2(0) == 1);
                    }
                }
                lemma_pow2_adds(2 * (j - 1) as nat, 2);
                assert(pow2(2) == 4);
                j = (j - 1) as nat;
            }
        }
        bit = bit / 4;
    }

    let ghost mut s: nat = 0nat;
    let ghost mut k: nat = j;

    proof {
        if bit != 0 {
            lemma_pow2_pos(k);
            if k < 15 {
                lemma_pow2_strictly_increases(k, 15);
            }
            lemma_pow2_adds(k, k);
            assert(pow2(k) <= 32768);
            assert((number as int) < (s + 2 * pow2(k)) * (s + 2 * pow2(k)))
                by (nonlinear_arith)
                requires
                    s == 0 && (number as int) < 4 * (pow2(k) * pow2(k)),
            ;
            assert(bit == pow2(2 * k));
            assert(k <= 15);
            assert(result == 2 * s * pow2(k)) by (nonlinear_arith)
                requires
                    result == 0 && s == 0,
            ;
            assert(s + 2 * pow2(k) <= 65536);
        } else {
            assert(number == 0);
            assert(result == s);
            assert((number as int) < (s + 1) * (s + 1)) by (nonlinear_arith)
                requires
                    number == 0 && s == 0,
            ;
        }
    }

    while bit != 0
        invariant
            n + s * s == number,
            bit != 0 ==> {
                &&& bit == pow2(2 * k)
                &&& k <= 15
                &&& result == 2 * s * pow2(k)
                &&& (number as int) < (s + 2 * pow2(k)) * (s + 2 * pow2(k))
                &&& s + 2 * pow2(k) <= 65536
            },
            bit == 0 ==> result == s && (number as int) < (s + 1) * (s + 1),
        decreases bit,
    {
        proof {
            lemma2_to64();
            lemma_pow2_pos(k);
            lemma_pow2_adds(k, k);
        }
        let ghost m: nat = pow2(k);
        assert(bit == m * m);
        assert(result + bit <= u32::MAX) by (nonlinear_arith)
            requires
                result == 2 * s * m && bit == m * m && s + 2 * m <= 65536 && m >= 1,
        ;
        if n >= result + bit {
            n = n - (result + bit);
            result = result / 2 + bit;
            proof {
                // The next root digit fits: the partial root grows by m.
                assert(result == (s + m) * m) by (nonlinear_arith)
                    requires
                        result == 2 * s * m / 2 + m * m,
                ;
                assert(n + (s + m) * (s + m) == number) by (nonlinear_arith)
                    requires
                        n == number - s * s - (2 * s * m + m * m),
                ;
                s = s + m;
            }
        } else {
            result = result / 2;
            proof {
                // The next root digit does not fit; the bound tightens.
                assert(result == s * m) by (nonlinear_arith)
                    requires
                        result == 2 * s * m / 2,
                ;
                assert((number as int) < (s + m) * (s + m)) by (nonlinear_arith)
                    requires
                        n == number - s * s && (n as int) < 2 * s * m + m * m,
                ;
            }
        }
        bit = bit / 4;
        proof {
            // Both branches left: result == s * m, n == number - s * s,
            // number < (s + m) * (s + m), s + m <= 65536.
            assert(result == s * m);
            assert(s + m <= 65536);
            if k == 0 {
                assert(m == 1);
                assert(bit == 0);
                assert(result == s) by (nonlinear_arith)
                    requires
                        result == s * m && m == 1,
                ;
                assert((number as int) < (s + 1) * (s + 1)) by (nonlinear_arith)
                    requires
                        (number as int) < (s + m) * (s + m) && m == 1,
                ;
            } else {
                lemma_pow2_adds((k - 1) as nat, 1);
                lemma_pow2_adds(2 * (k - 1) as nat, 2);
                assert(pow2(1) == 2 && pow2(2) == 4);
                k = (k - 1) as nat;
                assert(m == 2 * pow2(k));
                assert(s * m == 2 * s * pow2(k)) by (nonlinear_arith)
                    requires
                        m == 2 * pow2(k),
                ;
            }
        }
    }
    result
}

/// Hypotenuse of a right triangle with integer legs, rounded down, as the
/// guest program computes it.
pub fn compute_hypotenuse(a: u32, b: u32) -> (r: u32)
    requires
        a * a + b * b <= u32::MAX,
    ensures
        is_isqrt(a * a + b * b, r as int),
{
    let a_squared = a * a;
    let b_squared = b * b;
    let sum = a_squared + b_squared;

    sqrt_u32(sum)
}

} // verus!
