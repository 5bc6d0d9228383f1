use feal::{decrypt, encrypt, f, f_round, g0, g1, left, right};

#[test]
fn it_encrypts_and_decrypts() {
    let plaintext: u64 = 12323132;
    let subkeys: [u32; 6] = [1, 2, 3, 4, 5, 6];

    assert_eq!(plaintext, decrypt(encrypt(plaintext, subkeys), subkeys));
}

#[test]
fn it_takes_right() {
    let val: u64 = 0b0000000000000000000000000000000100000000000000000000000000001111;
    let expected: u32 = 0b00000000000000000000000000001111;

    assert_eq!(expected, right(val));
}

#[test]
fn it_takes_left() {
    let val: u64 = 0b0000000000000000000000000000000100000000000000000000000000000011;
    let expected: u32 = 0b00000000000000000000000000000001;

    assert_eq!(expected, left(val));
}

#[test]
fn it_concat_binary() {
    let first: u32 = 0b00000000000000000000000000000001;
    let second: u32 = 0b00000000000000000000000000000011;

    let expected: u64 = 0b0000000000000000000000000000000100000000000000000000000000000011;
    let actual: u64 = feal::halves::concat(first, second);

    assert_eq!(expected, actual, "Expected: {}, got: {} instead.", expected, actual);
}

#[test]
fn it_computes_g1() {
    assert_eq!(0b01011100, g1(0b10000010, 0b10010100));
    assert_eq!(0b11111100, g1(0b11111111, 0b11111111));
}

#[test]
fn it_computes_g0() {
    assert_eq!(0b01011000, g0(0b10000010, 0b10010100));
    assert_eq!(0b11111000, g0(0b11111111, 0b11111111));
}

#[test]
fn g0_and_g1_wrap_within_a_byte() {
    assert_eq!(176, g0(200, 100));
    assert_eq!(0, g1(255, 0));
}

#[test]
fn halves_of_a_packed_block() {
    let v = feal::halves::concat(0xdead_beef, 0x0102_0304);
    assert_eq!(0xdead_beef_0102_0304, v);
    assert_eq!(0xdead_beef, left(v));
    assert_eq!(0x0102_0304, right(v));
    assert_eq!(v, feal::halves::concat(left(v), right(v)));
}

#[test]
fn f_on_known_values() {
    assert_eq!(268701764, f(0));
    assert_eq!(0x9854_9024, f(0x1234_5678));
}

#[test]
fn f_round_passes_right_half_through() {
    assert_eq!((914452127, 16909060), f_round(0xdead_beef, 0x0102_0304, 0x0f0f_0f0f));
}

#[test]
fn encrypt_known_answers() {
    assert_eq!(6954799615671290154, encrypt(12323132, [1, 2, 3, 4, 5, 6]));
    assert_eq!(13862221283896344576, encrypt(0, [0; 6]));
    assert_eq!(15010656437464514560, encrypt(u64::MAX, [u32::MAX; 6]));
}

#[test]
fn round_trip_on_extreme_blocks() {
    for x in [0u64, 1, u64::MAX, 0x8000_0000_0000_0000, 0x0123_4567_89ab_cdef] {
        for k in [[0u32; 6], [u32::MAX; 6], [1, 2, 3, 4, 5, 6], [9, 0, 7, 0, 5, 0]] {
            assert_eq!(x, decrypt(encrypt(x, k), k));
            assert_eq!(x, encrypt(decrypt(x, k), k));
        }
    }
}

#[test]
fn repeated_calls_agree() {
    let k: [u32; 6] = [11, 22, 33, 44, 55, 66];
    assert_eq!(encrypt(777, k), encrypt(777, k));
    assert_eq!(decrypt(777, k), decrypt(777, k));
}

#[test]
fn changing_one_subkey_changes_the_ciphertext() {
    let base: [u32; 6] = [1, 2, 3, 4, 5, 6];
    let expected: [u64; 6] = [
        6918770819725003194,
        11561911325356198298,
        6918770547000871418,
        11597940947008883098,
        16205334554726893962,
        6918911987795364230,
    ];
    let c = encrypt(12323132, base);
    for i in 0..6 {
        let mut k = base;
        k[i] += 100;
        assert_eq!(expected[i], encrypt(12323132, k));
        assert_ne!(c, encrypt(12323132, k));
    }
}

#[test]
fn round_subkey_change_that_f_absorbs() {
    let base: [u32; 6] = [1, 2, 3, 4, 5, 6];
    let mut k = base;
    k[3] ^= 0x8080_0000;
    assert_eq!(encrypt(12323132, base), encrypt(12323132, k));
}

#[test]
fn f_on_more_known_values() {
    assert_eq!(0x1004_1044, f(0));
    assert_eq!(0x40D0_607C, f(0x00BC_093E));
}

#[test]
fn f_output_bytes_have_low_bits_clear() {
    for v in [0u32, 1, 0x00BC_093E, 0x1234_5678, u32::MAX] {
        assert_eq!(0, f(v) & 0x0303_0303);
    }
}

#[test]
fn f_ignores_high_bits_of_each_byte() {
    for v in [0xC0C0_C0C0u32, 0x00BC_093E, 0x1234_5678, u32::MAX] {
        assert_eq!(f(v & 0x3F3F_3F3F), f(v));
    }
}
