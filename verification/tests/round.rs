use mini_spn::State;
use mini_spn::encrypt;
use mini_spn::sbox;

#[test]
fn sbox_matches_table_and_is_a_permutation() {
    let table: [u8; 16] = [
        0x9, 0x4, 0xa, 0xb, 0xd, 0x1, 0x8, 0x5, 0x6, 0x2, 0x0, 0x3, 0xc, 0xe, 0xf, 0x7,
    ];
    let mut seen: [bool; 16] = [false; 16];
    for v in 0u8..16 {
        let r = sbox(v);
        assert_eq!(r, table[v as usize]);
        assert!(r <= 15);
        assert!(!seen[r as usize]);
        seen[r as usize] = true;
    }
    assert!(seen.iter().all(|&hit| hit));
}

#[test]
fn sbox_uses_only_the_low_nibble() {
    assert_eq!(sbox(0xf3), sbox(0x03));
    assert_eq!(sbox(0xa0), sbox(0x00));
    assert_eq!(sbox(0xff), 0x7);
}

#[test]
fn new_maps_bytes_to_grid_rows() {
    let s = State::new([0x11, 0x22, 0x33, 0x44]);
    assert_eq!(s.r0c0, 0x11);
    assert_eq!(s.r0c1, 0x22);
    assert_eq!(s.r1c0, 0x33);
    assert_eq!(s.r1c1, 0x44);
}

#[test]
fn shift_rows_swaps_row_one_and_is_an_involution() {
    let mut s = State::new([0x01, 0x02, 0x03, 0x04]);
    s.shift_rows();
    assert_eq!(s, State::new([0x01, 0x02, 0x04, 0x03]));
    s.shift_rows();
    assert_eq!(s, State::new([0x01, 0x02, 0x03, 0x04]));
}

#[test]
fn mix_columns_makes_both_cells_of_a_column_equal() {
    let mut s = State::new([0x03, 0x02, 0x02, 0x07]);
    s.mix_columns();
    assert_eq!(s, State::new([0x01, 0x05, 0x01, 0x05]));
}

#[test]
fn mix_columns_twice_zeroes_the_grid() {
    let mut s = State::new([0x5a, 0x3c, 0x0f, 0xf0]);
    s.mix_columns();
    s.mix_columns();
    assert_eq!(s, State::new([0x00, 0x00, 0x00, 0x00]));
}

#[test]
fn add_round_key_twice_restores_the_state() {
    let key = State::new([0xde, 0xad, 0xbe, 0xef]);
    let original = State::new([0x12, 0x34, 0x56, 0x78]);
    let mut s = original;
    s.add_round_key(&key);
    assert_ne!(s, original);
    s.add_round_key(&key);
    assert_eq!(s, original);
}

#[test]
fn encrypt_literal_case() {
    let c = encrypt([0x01, 0x02, 0x03, 0x04], [0x0a, 0x0b, 0x0c, 0x0d]);
    assert_eq!(c, State::new([0x0b, 0x0e, 0x0d, 0x08]));
}

#[test]
fn encrypt_is_deterministic() {
    let a = encrypt([0x01, 0x02, 0x03, 0x04], [0x0a, 0x0b, 0x0c, 0x0d]);
    let b = encrypt([0x01, 0x02, 0x03, 0x04], [0x0a, 0x0b, 0x0c, 0x0d]);
    assert_eq!(a, b);
}

#[test]
fn sequential_encrypt_calls_are_independent() {
    let first = encrypt([0x01, 0x02, 0x03, 0x04], [0x0a, 0x0b, 0x0c, 0x0d]);
    let second = encrypt([0xff, 0xee, 0xdd, 0xcc], [0x00, 0x00, 0x00, 0x00]);
    let first_again = encrypt([0x01, 0x02, 0x03, 0x04], [0x0a, 0x0b, 0x0c, 0x0d]);
    assert_eq!(first, first_again);
    assert_ne!(first, second);
}

#[test]
fn encrypt_with_zero_key_runs_the_bare_pipeline() {
    // With an all-zero key both combines are identities: the result is
    // mix(shift(sub(state))). sub([1,2,3,4]) = [4,a,b,d]; shift -> [4,a,d,b];
    // mix -> [4^d, a^b, d^4, b^a] = [9, 1, 9, 1].
    let c = encrypt([0x01, 0x02, 0x03, 0x04], [0x00, 0x00, 0x00, 0x00]);
    assert_eq!(c, State::new([0x09, 0x01, 0x09, 0x01]));
}

#[test]
fn encrypt_keeps_high_bits_of_the_key_in_the_final_combine() {
    // Substitution zeroes high nibbles and mixing preserves that, so any
    // high bits in the output come from the final key combine alone.
    let c = encrypt([0x01, 0x02, 0x03, 0x04], [0xf0, 0x00, 0x00, 0x00]);
    // Pre-whitening: [f1, 02, 03, 04]; sub -> [4, a, b, d]; shift -> [4, a, d, b];
    // mix -> [9, 1, 9, 1]; post-whitening -> [f9, 1, 9, 1].
    assert_eq!(c, State::new([0xf9, 0x01, 0x09, 0x01]));
}
