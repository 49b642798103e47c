//! A minimal, fixed-size substitution-permutation round on a 2x2 byte grid.
//!
//! One round takes a 4-byte block and a 4-byte key: the block is combined
//! with the round key, every cell is substituted through a fixed nibble
//! table, the second row is shifted, the columns are mixed, and the round
//! key is combined once more. This is a pedagogical single-round
//! construction, not a production cipher.

use vstd::prelude::*;

verus! {

/// The fixed substitution table: each 4-bit value maps to a permuted
/// 4-bit value. Only the low nibble of the argument is consulted; the
/// result is always in [0, 15].
pub open spec fn spec_sbox(v: u8) -> u8 {
    let n = v & 0x0f;
    if n == 0x0 {
        0x9
    } else if n == 0x1 {
        0x4
    } else if n == 0x2 {
        0xa
    } else if n == 0x3 {
        0xb
    } else if n == 0x4 {
        0xd
    } else if n == 0x5 {
        0x1
    } else if n == 0x6 {
        0x8
    } else if n == 0x7 {
        0x5
    } else if n == 0x8 {
        0x6
    } else if n == 0x9 {
        0x2
    } else if n == 0xa {
        0x0
    } else if n == 0xb {
        0x3
    } else if n == 0xc {
        0xc
    } else if n == 0xd {
        0xe
    } else if n == 0xe {
        0xf
    } else {
        0x7
    }
}

/// Looks the low nibble of `v` up in the substitution table.
pub fn sbox(v: u8) -> (r: u8)
    ensures
        r == spec_sbox(v),
{
    let n: u8 = v & 0x0f;
    if n == 0x0 {
        0x9
    } else if n == 0x1 {
        0x4
    } else if n == 0x2 {
        0xa
    } else if n == 0x3 {
        0xb
    } else if n == 0x4 {
        0xd
    } else if n == 0x5 {
        0x1
    } else if n == 0x6 {
        0x8
    } else if n == 0x7 {
        0x5
    } else if n == 0x8 {
        0x6
    } else if n == 0x9 {
        0x2
    } else if n == 0xa {
        0x0
    } else if n == 0xb {
        0x3
    } else if n == 0xc {
        0xc
    } else if n == 0xd {
        0xe
    } else if n == 0xe {
        0xf
    } else {
        0x7
    }
}

/// The substitution table is a permutation of [0, 15]: every result is in
/// range, two distinct values in [0, 15] never map to the same result, and
/// every value in [0, 15] is hit by some value in [0, 15].
pub proof fn lemma_sbox_permutation()
    ensures
        forall|v: u8| spec_sbox(v) <= 15,
        forall|v: u8, w: u8| v <= 15 && w <= 15 && spec_sbox(v) == spec_sbox(w) ==> v == w,
        forall|w: u8|
            #![trigger spec_sbox(w)]
            w <= 15 ==> exists|v: u8| v <= 15 && spec_sbox(v) == w,
{
    assert(forall|v: u8, w: u8|
        v <= 15 && w <= 15 && spec_sbox(v) == spec_sbox(w) ==> v == w) by (bit_vector);
    assert(spec_sbox(0x0) == 0x9 && spec_sbox(0x1) == 0x4 && spec_sbox(0x2) == 0xa
        && spec_sbox(0x3) == 0xb && spec_sbox(0x4) == 0xd && spec_sbox(0x5) == 0x1
        && spec_sbox(0x6) == 0x8 && spec_sbox(0x7) == 0x5 && spec_sbox(0x8) == 0x6
        && spec_sbox(0x9) == 0x2 && spec_sbox(0xa) == 0x0 && spec_sbox(0xb) == 0x3
        && spec_sbox(0xc) == 0xc && spec_sbox(0xd) == 0xe && spec_sbox(0xe) == 0xf
        && spec_sbox(0xf) == 0x7) by (bit_vector);
    assert forall|w: u8|
        #![trigger spec_sbox(w)]
        w <= 15 implies exists|v: u8| v <= 15 && spec_sbox(v) == w by {
        if w == 0x0 {
            assert(spec_sbox(0xa) == w);
        } else if w == 0x1 {
            assert(spec_sbox(0x5) == w);
        } else if w == 0x2 {
            assert(spec_sbox(0x9) == w);
        } else if w == 0x3 {
            assert(spec_sbox(0xb) == w);
        } else if w == 0x4 {
            assert(spec_sbox(0x1) == w);
        } else if w == 0x5 {
            assert(spec_sbox(0x7) == w);
        } else if w == 0x6 {
            assert(spec_sbox(0x8) == w);
        } else if w == 0x7 {
            assert(spec_sbox(0xf) == w);
        } else if w == 0x8 {
            assert(spec_sbox(0x6) == w);
        } else if w == 0x9 {
            assert(spec_sbox(0x0) == w);
        } else if w == 0xa {
            assert(spec_sbox(0x2) == w);
        } else if w == 0xb {
            assert(spec_sbox(0x3) == w);
        } else if w == 0xc {
            assert(spec_sbox(0xc) == w);
        } else if w == 0xd {
            assert(spec_sbox(0x4) == w);
        } else if w == 0xe {
            assert(spec_sbox(0xd) == w);
        } else {
            assert(spec_sbox(0xe) == w);
        }
    }
}

/// The 2x2 grid of byte values that one round transforms. Row 0 holds
/// `r0c0` and `r0c1`, row 1 holds `r1c0` and `r1c1`. All 8 bits of each
/// input byte are stored; only the low nibble feeds the substitution.
#[derive(Clone, Copy, Debug, PartialEq, Eq, Structural)]
pub struct State {
    pub r0c0: u8,
    pub r0c1: u8,
    pub r1c0: u8,
    pub r1c1: u8,
}

/// The grid built from a 4-byte block: bytes 0 and 1 fill row 0, bytes 2
/// and 3 fill row 1, in that order.
pub open spec fn spec_new(bytes: Seq<u8>) -> State {
    State { r0c0: bytes[0], r0c1: bytes[1], r1c0: bytes[2], r1c1: bytes[3] }
}

/// Every cell replaced by its substitution-table image.
pub open spec fn spec_sub_bytes(s: State) -> State {
    State {
        r0c0: spec_sbox(s.r0c0),
        r0c1: spec_sbox(s.r0c1),
        r1c0: spec_sbox(s.r1c0),
        r1c1: spec_sbox(s.r1c1),
    }
}

/// Row 1 with its two cells swapped; row 0 untouched. At width two, a
/// shift by one and a swap coincide.
pub open spec fn spec_shift_rows(s: State) -> State {
    State { r0c0: s.r0c0, r0c1: s.r0c1, r1c0: s.r1c1, r1c1: s.r1c0 }
}

/// Each column mixed independently: with a the old top cell and b the old
/// bottom cell, the new top cell is a XOR b and the new bottom cell is
/// b XOR a, both computed from the pre-mix values. Since XOR commutes,
/// both cells of a column end up equal.
pub open spec fn spec_mix_columns(s: State) -> State {
    State {
        r0c0: s.r0c0 ^ s.r1c0,
        r0c1: s.r0c1 ^ s.r1c1,
        r1c0: s.r1c0 ^ s.r0c0,
        r1c1: s.r1c1 ^ s.r0c1,
    }
}

/// Every cell XORed with the corresponding cell of the round key.
pub open spec fn spec_add_round_key(s: State, key: State) -> State {
    State {
        r0c0: s.r0c0 ^ key.r0c0,
        r0c1: s.r0c1 ^ key.r0c1,
        r1c0: s.r1c0 ^ key.r1c0,
        r1c1: s.r1c1 ^ key.r1c1,
    }
}

/// One full round: combine with the round key, substitute, shift, mix,
/// combine with the round key again.
pub open spec fn spec_encrypt(plaintext: Seq<u8>, key: Seq<u8>) -> State {
    let round_key = spec_new(key);
    spec_add_round_key(
        spec_mix_columns(spec_shift_rows(spec_sub_bytes(spec_add_round_key(
            spec_new(plaintext),
            round_key,
        )))),
        round_key,
    )
}

impl State {
    /// Builds the grid from a 4-byte block: bytes 0 and 1 become row 0,
    /// bytes 2 and 3 become row 1. Construction never fails and performs
    /// no validation on the byte values.
    pub fn new(bytes: [u8; 4]) -> (s: State)
        ensures
            s == spec_new(bytes@),
    {
        State { r0c0: bytes[0], r0c1: bytes[1], r1c0: bytes[2], r1c1: bytes[3] }
    }

    /// Replaces every cell with its substitution-table image. The lookup
    /// index is the low nibble, so the result zeroes any high bits.
    pub fn sub_bytes(&mut self)
        ensures
            *final(self) == spec_sub_bytes(*old(self)),
    {
        self.r0c0 = sbox(self.r0c0);
        self.r0c1 = sbox(self.r0c1);
        self.r1c0 = sbox(self.r1c0);
        self.r1c1 = sbox(self.r1c1);
    }

    /// Swaps the two cells of row 1; row 0 is untouched.
    pub fn shift_rows(&mut self)
        ensures
            *final(self) == spec_shift_rows(*old(self)),
    {
        let tmp: u8 = self.r1c0;
        self.r1c0 = self.r1c1;
        self.r1c1 = tmp;
    }

    /// Mixes each column from its pre-mix values: the top cell becomes
    /// a XOR b and the bottom cell b XOR a, so both cells of a column
    /// hold the same value afterwards.
    pub fn mix_columns(&mut self)
        ensures
            *final(self) == spec_mix_columns(*old(self)),
    {
        let a0: u8 = self.r0c0;
        let b0: u8 = self.r1c0;
        self.r0c0 = a0 ^ b0;
        self.r1c0 = b0 ^ a0;
        let a1: u8 = self.r0c1;
        let b1: u8 = self.r1c1;
        self.r0c1 = a1 ^ b1;
        self.r1c1 = b1 ^ a1;
    }

    /// XORs every cell with the corresponding cell of `key`, in place.
    pub fn add_round_key(&mut self, key: &State)
        ensures
            *final(self) == spec_add_round_key(*old(self), *key),
    {
        self.r0c0 = self.r0c0 ^ key.r0c0;
        self.r0c1 = self.r0c1 ^ key.r0c1;
        self.r1c0 = self.r1c0 ^ key.r1c0;
        self.r1c1 = self.r1c1 ^ key.r1c1;
    }
}

/// Runs one round over `plaintext` with `key`: build the state and the
/// round key, combine, substitute, shift, mix, combine again, and return
/// the resulting grid. The result is a pure function of the two arguments:
/// no state is shared between calls.
pub fn encrypt(plaintext: [u8; 4], key: [u8; 4]) -> (ciphertext: State)
    ensures
        ciphertext == spec_encrypt(plaintext@, key@),
{
    let mut state = State::new(plaintext);
    let round_key = State::new(key);

    state.add_round_key(&round_key);
    state.sub_bytes();
    state.shift_rows();
    state.mix_columns();
    state.add_round_key(&round_key);

    state
}

proof fn lemma_xor_cancel(a: u8, b: u8)
    by (bit_vector)
    ensures
        (a ^ b) ^ b == a,
{
}

proof fn lemma_xor_comm(a: u8, b: u8)
    by (bit_vector)
    ensures
        a ^ b == b ^ a,
{
}

proof fn lemma_xor_self(a: u8)
    by (bit_vector)
    ensures
        a ^ a == 0,
{
}

/// Shifting the rows twice returns any state to its original values,
/// since the shift is a single swap of row 1.
pub proof fn lemma_shift_rows_involution(s: State)
    ensures
        spec_shift_rows(spec_shift_rows(s)) == s,
{
}

/// Mixing is deterministic: for a column with old cells a and b, both
/// cells hold a XOR b afterwards, and mixing the same state twice leaves
/// every cell zero.
pub proof fn lemma_mix_columns_deterministic(s: State)
    ensures
        spec_mix_columns(s).r0c0 == s.r0c0 ^ s.r1c0,
        spec_mix_columns(s).r1c0 == s.r0c0 ^ s.r1c0,
        spec_mix_columns(s).r0c1 == s.r0c1 ^ s.r1c1,
        spec_mix_columns(s).r1c1 == s.r0c1 ^ s.r1c1,
        spec_mix_columns(spec_mix_columns(s)) == (State { r0c0: 0, r0c1: 0, r1c0: 0, r1c1: 0 }),
{
    lemma_xor_comm(s.r0c0, s.r1c0);
    lemma_xor_comm(s.r0c1, s.r1c1);
    lemma_xor_self(s.r0c0 ^ s.r1c0);
    lemma_xor_self(s.r0c1 ^ s.r1c1);
}

/// Combining with the same round key twice, with no other stage in
/// between, restores the original grid values.
pub proof fn lemma_add_round_key_involution(s: State, key: State)
    ensures
        spec_add_round_key(spec_add_round_key(s, key), key) == s,
{
    lemma_xor_cancel(s.r0c0, key.r0c0);
    lemma_xor_cancel(s.r0c1, key.r0c1);
    lemma_xor_cancel(s.r1c0, key.r1c0);
    lemma_xor_cancel(s.r1c1, key.r1c1);
}

} // verus!
