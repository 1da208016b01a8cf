//! Boolean attention signatures, the Hamming admission rule between them, and
//! the per-block admission mask it produces.
//!
//! A signature of `bits` bits is stored in `ceil(bits / 64)` `u64` words, least
//! significant bit first, with every bit past `bits` zero. Canonical zero tail
//! bits keep padding out of every Hamming distance.
use vstd::arithmetic::power2::{lemma2_to64, lemma_pow2_unfold, pow2};
use vstd::prelude::*;

verus! {

#[derive(Debug, Clone, Copy, PartialEq, Eq)]
#[non_exhaustive]
pub enum BooleanAttentionSignatureError {
    /// A signature or rule of zero bits.
    ZeroWidth,
    /// The word count does not hold exactly `bits` bits.
    WordCountMismatch { expected: usize, actual: usize },
    /// A bit past `bits` is set in the last word.
    NonCanonicalTail,
    /// Two widths that must agree differ.
    WidthMismatch { expected: usize, actual: usize },
    /// A rule admits more differing bits than a signature has.
    DistanceAboveWidth { max_distance: usize, bits: usize },
}

#[derive(Debug, Clone, Copy, PartialEq, Eq)]
#[non_exhaustive]
pub enum BooleanAttentionMaskError {
    /// A mask over no blocks.
    NoBlocks,
}

/// Number of set bits of `x`.
pub open spec fn popcount(x: u64) -> nat
    decreases x,
{
    if x == 0 {
        0
    } else {
        (x % 2) as nat + popcount(x / 2)
    }
}

/// Words needed for `bits` bits.
pub open spec fn words_for_bits(bits: int) -> int {
    (bits + 63) / 64
}

/// Every bit past `bits` of the last word is clear.
pub open spec fn canonical_tail(bits: usize, words: Seq<u64>) -> bool {
    bits % 64 == 0 || words.last() >> ((bits % 64) as u64) == 0
}

pub open spec fn signature_rule(bits: usize, words: Seq<u64>) -> Result<
    (),
    BooleanAttentionSignatureError,
> {
    if bits == 0 {
        Err(BooleanAttentionSignatureError::ZeroWidth)
    } else if words.len() != words_for_bits(bits as int) {
        Err(
            BooleanAttentionSignatureError::WordCountMismatch {
                expected: words_for_bits(bits as int) as usize,
                actual: words.len() as usize,
            },
        )
    } else if !canonical_tail(bits, words) {
        Err(BooleanAttentionSignatureError::NonCanonicalTail)
    } else {
        Ok(())
    }
}

/// Differing bits over the first `n` words of two signatures.
pub open spec fn hamming_prefix(a: Seq<u64>, b: Seq<u64>, n: int) -> nat
    decreases n,
{
    if n <= 0 {
        0
    } else {
        hamming_prefix(a, b, n - 1) + popcount(a[n - 1] ^ b[n - 1])
    }
}

pub open spec fn hamming(a: Seq<u64>, b: Seq<u64>) -> nat {
    hamming_prefix(a, b, a.len() as int)
}

/// A canonical Boolean attention signature.
#[derive(Debug, PartialEq, Eq)]
pub struct BooleanAttentionSignature {
    bits: usize,
    words: Vec<u64>,
}

impl BooleanAttentionSignature {
    #[verifier::type_invariant]
    spec fn canonical(self) -> bool {
        signature_rule(self.bits, self.words@) is Ok
    }

    pub closed spec fn spec_bits(self) -> usize {
        self.bits
    }

    pub closed spec fn spec_words(self) -> Seq<u64> {
        self.words@
    }

    /// Accept `words` as a signature of `bits` bits when it holds exactly that
    /// many bits with a clear tail.
    pub fn new(bits: usize, words: Vec<u64>) -> (r: Result<Self, BooleanAttentionSignatureError>)
        ensures
            match signature_rule(bits, words@) {
                Err(e) => r == Err::<Self, BooleanAttentionSignatureError>(e),
                Ok(()) => r matches Ok(s) && s.spec_bits() == bits && s.spec_words() == words@,
            },
    {
        if bits == 0 {
            return Err(BooleanAttentionSignatureError::ZeroWidth);
        }
        let expected = bits / 64 + if bits % 64 == 0 {
            0
        } else {
            1
        };
        if words.len() != expected {
            return Err(
                BooleanAttentionSignatureError::WordCountMismatch {
                    expected,
                    actual: words.len(),
                },
            );
        }
        let tail = bits % 64;
        if tail != 0 && words[words.len() - 1] >> (tail as u64) != 0 {
            return Err(BooleanAttentionSignatureError::NonCanonicalTail);
        }
        Ok(Self { bits, words })
    }

    pub fn bits(&self) -> (bits: usize)
        ensures
            bits == self.spec_bits(),
    {
        self.bits
    }

    pub fn words(&self) -> (words: &[u64])
        ensures
            words@ == self.spec_words(),
            words@.len() == words_for_bits(self.spec_bits() as int),
    {
        proof {
            use_type_invariant(self);
        }
        self.words.as_slice()
    }
}

impl Clone for BooleanAttentionSignature {
    fn clone(&self) -> (copy: Self)
        ensures
            copy.spec_bits() == self.spec_bits(),
            copy.spec_words() == self.spec_words(),
    {
        proof {
            use_type_invariant(self);
        }
        let words = self.words.clone();
        proof {
            assert(words@ =~= self.words@);
        }
        Self { bits: self.bits, words }
    }
}

proof fn lemma_popcount_below(x: u64, k: nat)
    requires
        x < pow2(k),
    ensures
        popcount(x) <= k,
    decreases k,
{
    if x != 0 {
        if k == 0 {
            lemma2_to64();
        } else {
            lemma_pow2_unfold(k);
            lemma_popcount_below(x / 2, (k - 1) as nat);
        }
    }
}

fn popcount_u64(x: u64) -> (count: u64)
    ensures
        count == popcount(x),
        count <= 64,
{
    proof {
        lemma2_to64();
        lemma_popcount_below(x, 64);
    }
    let mut rest = x;
    let mut count: u64 = 0;
    while rest != 0
        invariant
            count + popcount(rest) == popcount(x),
            popcount(x) <= 64,
        decreases rest,
    {
        count = count + rest % 2;
        rest = rest / 2;
    }
    count
}


/// Bit `k` (least significant first) of `x` is set.
pub open spec fn word_bit(x: u64, k: int) -> bool {
    (x >> (k as u64)) & 1u64 == 1u64
}

/// Bit `i` of a signature's words: bit `i % 64` of word `i / 64`.
pub open spec fn signature_bit(words: Seq<u64>, i: int) -> bool {
    word_bit(words[i / 64], i % 64)
}

/// Number of bit positions below `n` at which two signatures' words differ.
pub open spec fn differing_positions(a: Seq<u64>, b: Seq<u64>, n: int) -> nat
    decreases n,
{
    if n <= 0 {
        0
    } else {
        differing_positions(a, b, n - 1) + if signature_bit(a, n - 1) != signature_bit(b, n - 1) {
            1nat
        } else {
            0nat
        }
    }
}

/// Set bits of `x` below position `n`.
spec fn set_bits_below(x: u64, n: int) -> nat
    decreases n,
{
    if n <= 0 {
        0
    } else {
        set_bits_below(x, n - 1) + if word_bit(x, n - 1) {
            1nat
        } else {
            0nat
        }
    }
}

proof fn lemma_popcount_step(y: u64)
    ensures
        popcount(y) == (y % 2) as nat + popcount(y / 2),
{
}

proof fn lemma_set_bits_shift(z: u64, n: int)
    requires
        0 <= n <= 63,
    ensures
        set_bits_below(z, n) + popcount(z >> (n as u64)) == popcount(z),
    decreases n,
{
    if n == 0 {
        assert(z >> 0u64 == z) by (bit_vector);
    } else {
        lemma_set_bits_shift(z, n - 1);
        let s = (n - 1) as u64;
        let y = z >> s;
        lemma_popcount_step(y);
        assert((z >> s) / 2 == z >> ((s + 1) as u64)) by (bit_vector)
            requires
                s < 63,
        ;
        assert(((z >> s) % 2 == 1) == ((z >> s) & 1u64 == 1u64)) by (bit_vector);
        assert((z >> s) % 2 <= 1) by (bit_vector);
    }
}

/// The set bits of a word, counted position by position, are its popcount.
proof fn lemma_popcount_counts_bits(z: u64)
    ensures
        popcount(z) == set_bits_below(z, 64),
{
    lemma_set_bits_shift(z, 63);
    let y = z >> 63u64;
    lemma_popcount_step(y);
    assert((z >> 63u64) / 2 == 0) by (bit_vector);
    assert(((z >> 63u64) % 2 == 1) == ((z >> 63u64) & 1u64 == 1u64)) by (bit_vector);
    assert((z >> 63u64) % 2 <= 1) by (bit_vector);
}

/// The differing positions inside word `w` are the set bits of the words'
/// exclusive or.
proof fn lemma_word_differences(a: Seq<u64>, b: Seq<u64>, w: int, k: int)
    requires
        0 <= w < a.len(),
        w < b.len(),
        0 <= k <= 64,
    ensures
        differing_positions(a, b, 64 * w + k) == differing_positions(a, b, 64 * w) + set_bits_below(
            a[w] ^ b[w],
            k,
        ),
    decreases k,
{
    if k > 0 {
        lemma_word_differences(a, b, w, k - 1);
        let i = 64 * w + k - 1;
        assert(i / 64 == w && i % 64 == k - 1);
        let x = a[w];
        let y = b[w];
        let s = (k - 1) as u64;
        assert((((x >> s) & 1u64 == 1u64) != ((y >> s) & 1u64 == 1u64)) == (((x ^ y) >> s) & 1u64
            == 1u64)) by (bit_vector);
    }
}

/// The Hamming distance of two signatures of equally many words is the
/// number of bit positions, over every word, at which they differ.
pub proof fn lemma_hamming_counts_differing_bits(a: Seq<u64>, b: Seq<u64>)
    requires
        a.len() == b.len(),
    ensures
        hamming(a, b) == differing_positions(a, b, 64 * a.len() as int),
{
    lemma_hamming_prefix_counts(a, b, a.len() as int);
}

proof fn lemma_hamming_prefix_counts(a: Seq<u64>, b: Seq<u64>, m: int)
    requires
        a.len() == b.len(),
        0 <= m <= a.len(),
    ensures
        hamming_prefix(a, b, m) == differing_positions(a, b, 64 * m),
    decreases m,
{
    if m > 0 {
        lemma_hamming_prefix_counts(a, b, m - 1);
        lemma_word_differences(a, b, m - 1, 64);
        lemma_popcount_counts_bits(a[m - 1] ^ b[m - 1]);
        assert(64 * (m - 1) + 64 == 64 * m);
    }
}

/// Flipping one bit of the key changes its distance to the query by exactly
/// one, whichever word the bit lies in.
pub proof fn lemma_hamming_single_flip(a: Seq<u64>, b: Seq<u64>, w: int, k: u64)
    requires
        a.len() == b.len(),
        0 <= w < b.len(),
        k < 64,
    ensures
        ({
            let flipped = b.update(w, b[w] ^ (1u64 << k));
            hamming(a, flipped) == hamming(a, b) + 1 || hamming(a, flipped) + 1 == hamming(a, b)
        }),
{
    let flipped = b.update(w, b[w] ^ (1u64 << k));
    let n = 64 * a.len() as int;
    let i = 64 * w + k as int;
    lemma_hamming_counts_differing_bits(a, b);
    lemma_hamming_counts_differing_bits(a, flipped);
    assert forall|j: int| 0 <= j < n && j != i implies signature_bit(flipped, j) == signature_bit(
        b,
        j,
    ) by {
        if j / 64 == w {
            let x = b[w];
            let t = (j % 64) as u64;
            assert(t != k);
            assert(t != k ==> ((x ^ (1u64 << k)) >> t) & 1u64 == (x >> t) & 1u64) by (bit_vector)
                requires
                    k < 64,
                    t < 64,
            ;
        }
    }
    assert(i / 64 == w && i % 64 == k);
    let x = b[w];
    assert((((x ^ (1u64 << k)) >> k) & 1u64 == 1u64) != ((x >> k) & 1u64 == 1u64)) by (bit_vector)
        requires
            k < 64,
    ;
    assert(flipped[i / 64] == x ^ (1u64 << k));
    assert(((i % 64) as u64) == k);
    assert(signature_bit(flipped, i) == word_bit(x ^ (1u64 << k), k as int));
    assert(signature_bit(b, i) == word_bit(x, k as int));
    lemma_one_position_changes(a, b, flipped, i, n);
}

proof fn lemma_one_position_changes(a: Seq<u64>, b: Seq<u64>, c: Seq<u64>, i: int, n: int)
    requires
        0 <= i < n,
        forall|j: int| 0 <= j < n && j != i ==> signature_bit(c, j) == signature_bit(b, j),
        signature_bit(c, i) != signature_bit(b, i),
    ensures
        differing_positions(a, c, n) == differing_positions(a, b, n) + 1 || differing_positions(
            a,
            c,
            n,
        ) + 1 == differing_positions(a, b, n),
    decreases n,
{
    lemma_prefix_unchanged(a, b, c, i, i);
    let m = i + 1;
    assert(differing_positions(a, c, m) == differing_positions(a, b, m) + 1 || differing_positions(
        a,
        c,
        m,
    ) + 1 == differing_positions(a, b, m));
    lemma_suffix_keeps_gap(a, b, c, i, n);
}

proof fn lemma_prefix_unchanged(a: Seq<u64>, b: Seq<u64>, c: Seq<u64>, i: int, m: int)
    requires
        0 <= m <= i,
        forall|j: int| 0 <= j < m ==> signature_bit(c, j) == signature_bit(b, j),
    ensures
        differing_positions(a, c, m) == differing_positions(a, b, m),
    decreases m,
{
    if m > 0 {
        lemma_prefix_unchanged(a, b, c, i, m - 1);
    }
}

proof fn lemma_suffix_keeps_gap(a: Seq<u64>, b: Seq<u64>, c: Seq<u64>, i: int, m: int)
    requires
        0 <= i < m,
        forall|j: int| i < j < m ==> signature_bit(c, j) == signature_bit(b, j),
        differing_positions(a, c, i + 1) == differing_positions(a, b, i + 1) + 1
            || differing_positions(a, c, i + 1) + 1 == differing_positions(a, b, i + 1),
    ensures
        differing_positions(a, c, m) == differing_positions(a, b, m) + 1 || differing_positions(
            a,
            c,
            m,
        ) + 1 == differing_positions(a, b, m),
    decreases m,
{
    if m > i + 1 {
        lemma_suffix_keeps_gap(a, b, c, i, m - 1);
    }
}

/// A rule admits a key exactly when the number of bit positions at which the
/// query and key differ, over every word, is at most its maximum distance.
pub proof fn lemma_admission_counts_every_word(
    rule: HammingAdmissionRule,
    query: BooleanAttentionSignature,
    key: BooleanAttentionSignature,
)
    requires
        query.spec_bits() == rule.bits,
        key.spec_bits() == rule.bits,
        query.spec_words().len() == key.spec_words().len(),
    ensures
        admission_rule(rule, query, key) == Ok::<bool, BooleanAttentionSignatureError>(
            differing_positions(query.spec_words(), key.spec_words(), 64 * query.spec_words().len() as int)
                <= rule.max_distance,
        ),
{
    lemma_hamming_counts_differing_bits(query.spec_words(), key.spec_words());
}

/// Differing bits between two equally long word sequences.
fn hamming_distance(a: &[u64], b: &[u64]) -> (distance: u128)
    requires
        a@.len() == b@.len(),
    ensures
        distance == hamming(a@, b@),
{
    let mut distance: u128 = 0;
    let mut i: usize = 0;
    while i < a.len()
        invariant
            a@.len() == b@.len(),
            i <= a@.len(),
            distance == hamming_prefix(a@, b@, i as int),
            distance <= 64 * i,
        decreases a@.len() - i,
    {
        let count = popcount_u64(a[i] ^ b[i]);
        distance = distance + count as u128;
        i += 1;
    }
    distance
}

/// Admit a key whose Hamming distance to the query is at most `max_distance`,
/// over signatures of exactly `bits` bits.
#[derive(Debug, Clone, Copy, PartialEq, Eq, Structural)]
pub struct HammingAdmissionRule {
    pub max_distance: usize,
    pub bits: usize,
}

pub open spec fn hamming_rule_check(max_distance: usize, bits: usize) -> Result<
    (),
    BooleanAttentionSignatureError,
> {
    if bits == 0 {
        Err(BooleanAttentionSignatureError::ZeroWidth)
    } else if max_distance > bits {
        Err(BooleanAttentionSignatureError::DistanceAboveWidth { max_distance, bits })
    } else {
        Ok(())
    }
}

/// What the rule decides for one query and key.
pub open spec fn admission_rule(
    rule: HammingAdmissionRule,
    query: BooleanAttentionSignature,
    key: BooleanAttentionSignature,
) -> Result<bool, BooleanAttentionSignatureError> {
    if query.spec_bits() != rule.bits {
        Err(
            BooleanAttentionSignatureError::WidthMismatch {
                expected: rule.bits,
                actual: query.spec_bits(),
            },
        )
    } else if key.spec_bits() != rule.bits {
        Err(
            BooleanAttentionSignatureError::WidthMismatch {
                expected: rule.bits,
                actual: key.spec_bits(),
            },
        )
    } else {
        Ok(hamming(query.spec_words(), key.spec_words()) <= rule.max_distance)
    }
}

impl HammingAdmissionRule {
    pub fn new(max_distance: usize, bits: usize) -> (r: Result<Self, BooleanAttentionSignatureError>)
        ensures
            match hamming_rule_check(max_distance, bits) {
                Err(e) => r == Err::<Self, BooleanAttentionSignatureError>(e),
                Ok(()) => r == Ok::<Self, BooleanAttentionSignatureError>(
                    Self { max_distance, bits },
                ),
            },
    {
        if bits == 0 {
            return Err(BooleanAttentionSignatureError::ZeroWidth);
        }
        if max_distance > bits {
            return Err(BooleanAttentionSignatureError::DistanceAboveWidth { max_distance, bits });
        }
        Ok(Self { max_distance, bits })
    }

    /// Whether `key` is admitted for `query`; both must have the rule's width.
    pub fn admits(&self, query: &BooleanAttentionSignature, key: &BooleanAttentionSignature) -> (r:
        Result<bool, BooleanAttentionSignatureError>)
        ensures
            r == admission_rule(*self, *query, *key),
    {
        if query.bits() != self.bits {
            return Err(
                BooleanAttentionSignatureError::WidthMismatch {
                    expected: self.bits,
                    actual: query.bits(),
                },
            );
        }
        if key.bits() != self.bits {
            return Err(
                BooleanAttentionSignatureError::WidthMismatch {
                    expected: self.bits,
                    actual: key.bits(),
                },
            );
        }
        let distance = hamming_distance(query.words(), key.words());
        Ok(distance <= self.max_distance as u128)
    }
}

/// Indices of the admitted blocks among the first `n`, in increasing order.
pub open spec fn admitted_prefix(admissions: Seq<bool>, n: int) -> Seq<usize>
    decreases n,
{
    if n <= 0 {
        Seq::empty()
    } else if admissions[n - 1] {
        admitted_prefix(admissions, n - 1).push((n - 1) as usize)
    } else {
        admitted_prefix(admissions, n - 1)
    }
}

pub open spec fn admitted_indices(admissions: Seq<bool>) -> Seq<usize> {
    admitted_prefix(admissions, admissions.len() as int)
}

/// One admission flag per candidate block.
#[derive(Debug, Clone, PartialEq, Eq)]
pub struct BooleanAttentionMask {
    admissions: Vec<bool>,
}

impl BooleanAttentionMask {
    pub closed spec fn spec_admissions(self) -> Seq<bool> {
        self.admissions@
    }

    /// A mask over at least one block.
    pub fn from_admissions(admissions: &[bool]) -> (r: Result<Self, BooleanAttentionMaskError>)
        ensures
            admissions@.len() == 0 ==> r == Err::<Self, BooleanAttentionMaskError>(
                BooleanAttentionMaskError::NoBlocks,
            ),
            admissions@.len() > 0 ==> (r matches Ok(mask) && mask.spec_admissions()
                == admissions@),
    {
        if admissions.len() == 0 {
            return Err(BooleanAttentionMaskError::NoBlocks);
        }
        let mut copy: Vec<bool> = Vec::new();
        let mut i: usize = 0;
        while i < admissions.len()
            invariant
                i <= admissions@.len(),
                copy@ == admissions@.subrange(0, i as int),
            decreases admissions@.len() - i,
        {
            copy.push(admissions[i]);
            i += 1;
            proof {
                assert(copy@ =~= admissions@.subrange(0, i as int));
            }
        }
        proof {
            assert(copy@ =~= admissions@);
        }
        Ok(Self { admissions: copy })
    }

    /// Indices of the admitted blocks, in increasing order.
    pub fn admitted_blocks(&self) -> (blocks: Vec<usize>)
        ensures
            blocks@ == admitted_indices(self.spec_admissions()),
    {
        let mut blocks: Vec<usize> = Vec::new();
        let mut i: usize = 0;
        while i < self.admissions.len()
            invariant
                i <= self.admissions@.len(),
                blocks@ == admitted_prefix(self.admissions@, i as int),
            decreases self.admissions@.len() - i,
        {
            if self.admissions[i] {
                blocks.push(i);
            }
            i += 1;
        }
        blocks
    }
}

} // verus!
