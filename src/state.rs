//! Derivation of a piece's numeric payload from a block of entropy bytes.
use vstd::prelude::*;

verus! {

/// Every magnitude is a fraction with this denominator (`u32::MAX`): the
/// magnitude of a chunk is its 32-bit value divided by this number.
pub const MAGNITUDE_DENOMINATOR: u32 = 4294967295;

/// Number of classes; each class lies in `0..CLASS_COUNT`.
pub const CLASS_COUNT: u32 = 10;

/// The numeric payload of a piece. Index `i` of both sequences comes from
/// the `i`-th 4-byte chunk of the entropy block: `superposition[i]` is the
/// chunk read as a little-endian `u32` (the numerator of the magnitude over
/// `MAGNITUDE_DENOMINATOR`), and `entanglement[i]` is that value modulo
/// `CLASS_COUNT`.
#[derive(Debug, PartialEq, Eq)]
pub struct QuantumState {
    pub superposition: Vec<u32>,
    pub entanglement: Vec<usize>,
}

/// Abstract value of a `QuantumState`.
pub struct QuantumStateView {
    pub superposition: Seq<u32>,
    pub entanglement: Seq<usize>,
}

impl View for QuantumState {
    type V = QuantumStateView;

    open spec fn view(&self) -> QuantumStateView {
        QuantumStateView { superposition: self.superposition@, entanglement: self.entanglement@ }
    }
}

impl Clone for QuantumState {
    fn clone(&self) -> (r: QuantumState)
        ensures
            r@ == self@,
    {
        let superposition = self.superposition.clone();
        let entanglement = self.entanglement.clone();
        assert(superposition@ =~= self.superposition@);
        assert(entanglement@ =~= self.entanglement@);
        QuantumState { superposition, entanglement }
    }
}

/// Number of whole 4-byte chunks in a block of `len` bytes.
pub open spec fn chunk_count(len: nat) -> nat {
    len / 4
}

/// The `i`-th 4-byte chunk of `b`, read as a little-endian unsigned integer.
pub open spec fn le_word(b: Seq<u8>, i: int) -> int {
    b[4 * i] as int + 256 * b[4 * i + 1] as int + 65536 * b[4 * i + 2] as int + 16777216 * b[4
        * i + 3] as int
}

/// The chunk values of a block, in chunk order; a trailing partial chunk is
/// left out.
pub open spec fn words_of(b: Seq<u8>) -> Seq<u32> {
    Seq::new(chunk_count(b.len()), |i: int| le_word(b, i) as u32)
}

/// The classes of a block, in chunk order.
pub open spec fn classes_of(b: Seq<u8>) -> Seq<usize> {
    Seq::new(chunk_count(b.len()), |i: int| (le_word(b, i) % 10) as usize)
}

/// The state that a block of entropy bytes determines.
pub open spec fn derived_state(b: Seq<u8>) -> QuantumStateView {
    QuantumStateView { superposition: words_of(b), entanglement: classes_of(b) }
}

proof fn lemma_le_word_bounds(b: Seq<u8>, i: int)
    requires
        0 <= i,
        4 * i + 3 < b.len(),
    ensures
        0 <= le_word(b, i) <= u32::MAX,
{
}

/// Reads the `i`-th 4-byte chunk of `bytes` as a little-endian `u32`.
fn read_le_u32(bytes: &Vec<u8>, i: usize) -> (r: u32)
    requires
        4 * i + 3 < bytes@.len(),
    ensures
        r as int == le_word(bytes@, i as int),
{
    let len: usize = bytes.len();
    assert(4 * i < len);
    let k: usize = 4 * i;
    let b0: u32 = bytes[k] as u32;
    let b1: u32 = bytes[k + 1] as u32;
    let b2: u32 = bytes[k + 2] as u32;
    let b3: u32 = bytes[k + 3] as u32;
    b0 + 256 * b1 + 65536 * b2 + 16777216 * b3
}

/// Derives the state of a piece from a block of entropy bytes: one value
/// and one class per whole 4-byte chunk, in chunk order. A block shorter
/// than four bytes gives empty sequences.
pub fn process_random_bytes(rng_bytes: &Vec<u8>) -> (r: QuantumState)
    ensures
        r@ == derived_state(rng_bytes@),
{
    let n: usize = rng_bytes.len() / 4;
    let mut superposition: Vec<u32> = Vec::with_capacity(n);
    let mut entanglement: Vec<usize> = Vec::with_capacity(n);
    let mut i: usize = 0;
    while i < n
        invariant
            n == chunk_count(rng_bytes@.len()),
            i <= n,
            superposition@ == words_of(rng_bytes@).take(i as int),
            entanglement@ == classes_of(rng_bytes@).take(i as int),
        decreases n - i,
    {
        let v: u32 = read_le_u32(rng_bytes, i);
        superposition.push(v);
        entanglement.push((v % CLASS_COUNT) as usize);
        i = i + 1;
        assert(superposition@ =~= words_of(rng_bytes@).take(i as int));
        assert(entanglement@ =~= classes_of(rng_bytes@).take(i as int));
    }
    assert(superposition@ =~= words_of(rng_bytes@));
    assert(entanglement@ =~= classes_of(rng_bytes@));
    QuantumState { superposition, entanglement }
}

/// What a derived state holds, for any entropy block of length `L`: both
/// sequences have `L / 4` entries; every class lies in `0..10`; entry `i`
/// of both comes from the same chunk `i`, which the value reconstructs
/// exactly and whose value modulo 10 is the class.
pub proof fn derived_state_shape(b: Seq<u8>)
    ensures
        derived_state(b).superposition.len() == b.len() / 4,
        derived_state(b).entanglement.len() == b.len() / 4,
        forall|i: int|
            0 <= i < b.len() / 4 ==> #[trigger] derived_state(b).entanglement[i] < 10
                && derived_state(b).superposition[i] as int == le_word(b, i)
                && derived_state(b).entanglement[i] as int == derived_state(b).superposition[i]
                as int % 10,
{
    assert forall|i: int| 0 <= i < b.len() / 4 implies #[trigger] derived_state(b).entanglement[i]
        < 10 && derived_state(b).superposition[i] as int == le_word(b, i)
        && derived_state(b).entanglement[i] as int == derived_state(b).superposition[i] as int
        % 10 by {
        lemma_le_word_bounds(b, i);
    }
}

} // verus!
