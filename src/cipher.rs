//! The Feistel round and the block transformations built from it.

use vstd::prelude::*;

use crate::halves::{
    concat, high_half, left, lemma_halves_of_pack, lemma_pack_of_halves, low_half, pack, right,
};
use crate::mixing::{f, f_spec};

verus! {

/// A pair of 32-bit halves: `(left, right)`.
pub type Halves = (u32, u32);

/// One Feistel round: `left` is mixed with `f(right ^ key)`; `right` passes through.
pub open spec fn round_spec(s: Halves, key: u32) -> Halves {
    (s.0 ^ f_spec(s.1 ^ key), s.1)
}

/// A round whose two outputs change roles for the next round.
pub open spec fn swapped_round(s: Halves, key: u32) -> Halves {
    let t = round_spec(s, key);
    (t.1, t.0)
}

/// The halves of a block, with the right half mixed with the left.
pub open spec fn mix_in(v: u64) -> Halves {
    (high_half(v), low_half(v) ^ high_half(v))
}

/// The block of two halves, with the right half mixed with the left.
pub open spec fn mix_out(s: Halves) -> u64 {
    pack(s.0, s.1 ^ s.0)
}

/// The whitening key: `k[4]` in the high half, `k[5]` in the low half.
pub open spec fn whitening_key(k: Seq<u32>) -> u64 {
    pack(k[4], k[5])
}

/// The halves that enter round `i` (0 to 3) when `x` is encrypted under `k`.
pub open spec fn state_before_round(x: u64, k: Seq<u32>, i: int) -> Halves {
    let s0 = mix_in(x ^ whitening_key(k));
    if i <= 0 {
        s0
    } else if i == 1 {
        swapped_round(s0, k[0])
    } else if i == 2 {
        swapped_round(swapped_round(s0, k[0]), k[1])
    } else {
        swapped_round(swapped_round(swapped_round(s0, k[0]), k[1]), k[2])
    }
}

/// The encryption of block `x` under subkeys `k`.
pub open spec fn encrypt_spec(x: u64, k: Seq<u32>) -> u64 {
    let s0 = mix_in(x ^ whitening_key(k));
    let s1 = swapped_round(s0, k[0]);
    let s2 = swapped_round(s1, k[1]);
    let s3 = swapped_round(s2, k[2]);
    mix_out(round_spec(s3, k[3]))
}

/// The rounds of decryption, in reverse key order, before the whitening key is removed.
pub open spec fn decrypt_rounds(c: u64, k: Seq<u32>) -> u64 {
    let s0 = mix_in(c);
    let s1 = swapped_round(s0, k[3]);
    let s2 = swapped_round(s1, k[2]);
    let s3 = swapped_round(s2, k[1]);
    mix_out(round_spec(s3, k[0]))
}

/// The decryption of block `c` under subkeys `k`.
pub open spec fn decrypt_spec(c: u64, k: Seq<u32>) -> u64 {
    decrypt_rounds(c, k) ^ whitening_key(k)
}

/// The encryption of `x` under subkeys `k0..k5`, written over single words; each `r`
/// is the half that a round writes. Unlike `encrypt_spec`, it holds no tuple and no
/// sequence, so the bit-vector solver can evaluate it.
pub open spec fn encrypt_words(x: u64, k0: u32, k1: u32, k2: u32, k3: u32, k4: u32, k5: u32) -> u64 {
    let p = x ^ pack(k4, k5);
    let l0 = high_half(p);
    let r0 = low_half(p) ^ l0;
    let r1 = l0 ^ f_spec(r0 ^ k0);
    let r2 = r0 ^ f_spec(r1 ^ k1);
    let r3 = r1 ^ f_spec(r2 ^ k2);
    let l4 = r2 ^ f_spec(r3 ^ k3);
    pack(l4, r3 ^ l4)
}

/// The decryption of `c` under subkeys `k0..k5`, written over single words as
/// `encrypt_words` is.
pub open spec fn decrypt_words(c: u64, k0: u32, k1: u32, k2: u32, k3: u32, k4: u32, k5: u32) -> u64 {
    let l0 = high_half(c);
    let r0 = low_half(c) ^ l0;
    let r1 = l0 ^ f_spec(r0 ^ k3);
    let r2 = r0 ^ f_spec(r1 ^ k2);
    let r3 = r1 ^ f_spec(r2 ^ k1);
    let l4 = r2 ^ f_spec(r3 ^ k0);
    pack(l4, r3 ^ l4) ^ pack(k4, k5)
}

/// One Feistel round: returns `(left ^ f(right ^ key), right)`.
pub fn f_round(left: u32, right: u32, key: u32) -> (r: (u32, u32))
    ensures
        r == round_spec((left, right), key),
{
    let new_left = left ^ f(right ^ key);

    (new_left, right)
}

/// Encrypts one 64-bit block under the subkeys `k0..k5`.
pub fn encrypt(plaintext: u64, subkeys: [u32; 6]) -> (r: u64)
    ensures
        r == encrypt_spec(plaintext, subkeys@),
        r == encrypt_words(
            plaintext,
            subkeys[0],
            subkeys[1],
            subkeys[2],
            subkeys[3],
            subkeys[4],
            subkeys[5],
        ),
{
    let k45 = concat(subkeys[4], subkeys[5]);

    let p = plaintext ^ k45;
    let mut l = left(p);
    let mut r = right(p);

    r = r ^ l;

    let (a, b) = f_round(l, r, subkeys[0]);
    r = a;
    l = b;
    let (a, b) = f_round(l, r, subkeys[1]);
    r = a;
    l = b;
    let (a, b) = f_round(l, r, subkeys[2]);
    r = a;
    l = b;
    let (a, b) = f_round(l, r, subkeys[3]);
    l = a;
    r = b;

    r = r ^ l;

    concat(l, r)
}

/// Decrypts one 64-bit block under the subkeys `k0..k5`.
pub fn decrypt(cipher: u64, subkeys: [u32; 6]) -> (r: u64)
    ensures
        r == decrypt_spec(cipher, subkeys@),
        r == decrypt_words(
            cipher,
            subkeys[0],
            subkeys[1],
            subkeys[2],
            subkeys[3],
            subkeys[4],
            subkeys[5],
        ),
{
    let k45 = concat(subkeys[4], subkeys[5]);

    let mut l = left(cipher);
    let mut r = right(cipher);

    r = r ^ l;

    let (a, b) = f_round(l, r, subkeys[3]);
    r = a;
    l = b;
    let (a, b) = f_round(l, r, subkeys[2]);
    r = a;
    l = b;
    let (a, b) = f_round(l, r, subkeys[1]);
    r = a;
    l = b;
    let (a, b) = f_round(l, r, subkeys[0]);
    l = a;
    r = b;

    r = r ^ l;

    concat(l, r) ^ k45
}

proof fn lemma_xor_cancel_u32(a: u32, b: u32)
    ensures
        a ^ b ^ b == a,
{
    assert(a ^ b ^ b == a) by (bit_vector);
}

proof fn lemma_xor_cancel_u64(a: u64, b: u64)
    ensures
        a ^ b ^ b == a,
{
    assert(a ^ b ^ b == a) by (bit_vector);
}

/// A swapped round is undone by the same round applied to its output with the roles
/// changed back.
proof fn lemma_swapped_round_undo(s: Halves, key: u32)
    ensures
        swapped_round((swapped_round(s, key).1, swapped_round(s, key).0), key) == (s.1, s.0),
{
    lemma_xor_cancel_u32(s.0, f_spec(s.1 ^ key));
}

/// Splitting and cross-mixing a block undoes joining and cross-mixing its halves.
proof fn lemma_mix_in_out(s: Halves)
    ensures
        mix_in(mix_out(s)) == s,
{
    lemma_halves_of_pack(s.0, s.1 ^ s.0);
    lemma_xor_cancel_u32(s.1, s.0);
}

/// Joining and cross-mixing the halves undoes splitting and cross-mixing a block.
proof fn lemma_mix_out_in(v: u64)
    ensures
        mix_out(mix_in(v)) == v,
{
    lemma_xor_cancel_u32(low_half(v), high_half(v));
    lemma_pack_of_halves(v);
}

/// Decryption under the same subkeys undoes encryption, for every block and every
/// set of six subkeys.
pub proof fn lemma_round_trip(x: u64, k: Seq<u32>)
    requires
        k.len() == 6,
    ensures
        decrypt_spec(encrypt_spec(x, k), k) == x,
{
    let p = x ^ whitening_key(k);
    let s0 = mix_in(p);
    let s1 = swapped_round(s0, k[0]);
    let s2 = swapped_round(s1, k[1]);
    let s3 = swapped_round(s2, k[2]);
    let s4 = swapped_round(s3, k[3]);
    let c = mix_out(round_spec(s3, k[3]));
    assert(round_spec(s3, k[3]) == (s4.1, s4.0));
    lemma_mix_in_out((s4.1, s4.0));
    lemma_swapped_round_undo(s3, k[3]);
    lemma_swapped_round_undo(s2, k[2]);
    lemma_swapped_round_undo(s1, k[1]);
    lemma_swapped_round_undo(s0, k[0]);
    let t1 = swapped_round(mix_in(c), k[3]);
    assert(t1 == (s3.1, s3.0));
    let t2 = swapped_round(t1, k[2]);
    assert(t2 == (s2.1, s2.0));
    let t3 = swapped_round(t2, k[1]);
    assert(t3 == (s1.1, s1.0));
    assert(round_spec(t3, k[0]) == s0);
    lemma_mix_out_in(p);
    lemma_xor_cancel_u64(x, whitening_key(k));
}

proof fn lemma_xor_injective_u32(a: u32, b: u32, c: u32)
    ensures
        a ^ b == a ^ c ==> b == c,
{
    assert(a ^ b == a ^ c ==> b == c) by (bit_vector);
}

proof fn lemma_xor_injective_u64(a: u64, b: u64, c: u64)
    ensures
        a ^ b == a ^ c ==> b == c,
{
    assert(a ^ b == a ^ c ==> b == c) by (bit_vector);
}

/// A round with a fixed key sends distinct states to distinct states.
proof fn lemma_round_injective(s: Halves, t: Halves, key: u32)
    ensures
        round_spec(s, key) == round_spec(t, key) ==> s == t,
{
    if round_spec(s, key) == round_spec(t, key) {
        lemma_xor_cancel_u32(s.0, f_spec(s.1 ^ key));
        lemma_xor_cancel_u32(t.0, f_spec(s.1 ^ key));
    }
}

/// Joining and cross-mixing sends distinct states to distinct blocks.
proof fn lemma_mix_out_injective(s: Halves, t: Halves)
    ensures
        mix_out(s) == mix_out(t) ==> s == t,
{
    lemma_mix_in_out(s);
    lemma_mix_in_out(t);
}

/// Changing round subkey `k[i]` (`i` from 0 to 3) changes the ciphertext exactly when
/// it changes what `f` returns in round `i`.
pub proof fn lemma_round_key_sensitivity(x: u64, k: Seq<u32>, i: int, key: u32)
    requires
        k.len() == 6,
        0 <= i < 4,
    ensures
        encrypt_spec(x, k.update(i, key)) != encrypt_spec(x, k) <==> f_spec(
            state_before_round(x, k, i).1 ^ key,
        ) != f_spec(state_before_round(x, k, i).1 ^ k[i]),
{
    let k2 = k.update(i, key);
    let s = state_before_round(x, k, i);
    assert(whitening_key(k2) == whitening_key(k));
    assert(state_before_round(x, k2, i) == s);
    let a1 = if i == 3 { round_spec(s, k[3]) } else { swapped_round(s, k[i]) };
    let a2 = if i == 3 { round_spec(s, key) } else { swapped_round(s, key) };
    lemma_xor_injective_u32(s.0, f_spec(s.1 ^ key), f_spec(s.1 ^ k[i]));
    assert(a1 == a2 <==> f_spec(s.1 ^ key) == f_spec(s.1 ^ k[i]));
    if i == 3 {
        assert(encrypt_spec(x, k) == mix_out(a1));
        assert(encrypt_spec(x, k2) == mix_out(a2));
        lemma_mix_out_injective(a1, a2);
    } else if i == 2 {
        assert(encrypt_spec(x, k) == mix_out(round_spec(a1, k[3])));
        assert(encrypt_spec(x, k2) == mix_out(round_spec(a2, k[3])));
        lemma_round_injective(a1, a2, k[3]);
        lemma_mix_out_injective(round_spec(a1, k[3]), round_spec(a2, k[3]));
    } else if i == 1 {
        let b1 = swapped_round(a1, k[2]);
        let b2 = swapped_round(a2, k[2]);
        assert(encrypt_spec(x, k) == mix_out(round_spec(b1, k[3])));
        assert(encrypt_spec(x, k2) == mix_out(round_spec(b2, k[3])));
        lemma_round_injective(a1, a2, k[2]);
        lemma_round_injective(b1, b2, k[3]);
        lemma_mix_out_injective(round_spec(b1, k[3]), round_spec(b2, k[3]));
    } else {
        let b1 = swapped_round(a1, k[1]);
        let b2 = swapped_round(a2, k[1]);
        let c1 = swapped_round(b1, k[2]);
        let c2 = swapped_round(b2, k[2]);
        assert(encrypt_spec(x, k) == mix_out(round_spec(c1, k[3])));
        assert(encrypt_spec(x, k2) == mix_out(round_spec(c2, k[3])));
        lemma_round_injective(a1, a2, k[1]);
        lemma_round_injective(b1, b2, k[2]);
        lemma_round_injective(c1, c2, k[3]);
        lemma_mix_out_injective(round_spec(c1, k[3]), round_spec(c2, k[3]));
    }
}

/// Changing whitening subkey `k[4]` or `k[5]` always changes the ciphertext.
pub proof fn lemma_whitening_key_sensitivity(x: u64, k: Seq<u32>, i: int, key: u32)
    requires
        k.len() == 6,
        i == 4 || i == 5,
        key != k[i],
    ensures
        encrypt_spec(x, k.update(i, key)) != encrypt_spec(x, k),
{
    let k2 = k.update(i, key);
    lemma_round_trip(x, k);
    lemma_round_trip(x, k2);
    if encrypt_spec(x, k2) == encrypt_spec(x, k) {
        let c = encrypt_spec(x, k);
        let d = decrypt_rounds(c, k);
        assert(k2[0] == k[0] && k2[1] == k[1] && k2[2] == k[2] && k2[3] == k[3]);
        assert(decrypt_rounds(c, k2) == d);
        lemma_xor_injective_u64(d, whitening_key(k), whitening_key(k2));
        lemma_halves_of_pack(k[4], k[5]);
        lemma_halves_of_pack(k2[4], k2[5]);
    }
}

/// Encryption and decryption depend on their arguments alone: equal arguments give
/// equal results.
pub proof fn lemma_deterministic(x: u64, k: Seq<u32>, y: u64, j: Seq<u32>)
    requires
        x == y,
        k == j,
    ensures
        encrypt_spec(x, k) == encrypt_spec(y, j),
        decrypt_spec(x, k) == decrypt_spec(y, j),
{
}

} // verus!
