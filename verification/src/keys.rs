//! Deterministic key construction: optional hash scrambling of the logical
//! record number, zero-padded decimal text keys with a per-stream partition
//! label, and raw big-endian integer keys for the partition-less workload.

use crate::config::{RunConfig, Workload};
use crate::digits::{
    ascii_of, digits_of, lemma_ascii_shift_order, lemma_digits_bounded, lemma_digits_len,
    lemma_digits_order, lemma_lex_common_prefix, lemma_lex_total, lex_less, to_base_digits,
};
use vstd::arithmetic::power::pow;
use vstd::prelude::*;

verus! {

/// Self-inverse avalanche step: fold the high half onto the low half.
pub open spec fn mix_shift16(h: u32) -> u32 {
    h ^ (h >> 16)
}

pub open spec fn mix_shift13(h: u32) -> u32 {
    h ^ (h >> 13)
}

pub open spec fn unmix_shift13(h: u32) -> u32 {
    h ^ (h >> 13) ^ (h >> 26)
}

pub open spec fn mix_mul1(h: u32) -> u32 {
    (h * 0x85eb_ca6b) as u32
}

pub open spec fn mix_mul2(h: u32) -> u32 {
    (h * 0xc2b2_ae35) as u32
}

pub open spec fn unmix_mul1(h: u32) -> u32 {
    (h * 0xa5cb_9243) as u32
}

pub open spec fn unmix_mul2(h: u32) -> u32 {
    (h * 0x7ed1_b41d) as u32
}

/// The three-round multiply-xor-shift avalanche applied to record numbers in
/// scrambled-key mode.
pub open spec fn spec_scramble(x: u32) -> u32 {
    mix_shift16(mix_mul2(mix_shift13(mix_mul1(mix_shift16(x)))))
}

/// The exact inverse of `spec_scramble`, witnessing that scrambling permutes
/// the 32-bit key space.
pub open spec fn spec_unscramble(y: u32) -> u32 {
    mix_shift16(unmix_mul1(unmix_shift13(unmix_mul2(mix_shift16(y)))))
}

proof fn lemma_shift16_self_inverse(h: u32)
    by (bit_vector)
    ensures
        mix_shift16(mix_shift16(h)) == h,
{
}

proof fn lemma_shift13_inverse(h: u32)
    by (bit_vector)
    ensures
        unmix_shift13(mix_shift13(h)) == h,
        mix_shift13(unmix_shift13(h)) == h,
{
}

proof fn lemma_mul1_inverse(h: u32)
    by (bit_vector)
    ensures
        unmix_mul1(mix_mul1(h)) == h,
        mix_mul1(unmix_mul1(h)) == h,
{
}

proof fn lemma_mul2_inverse(h: u32)
    by (bit_vector)
    ensures
        unmix_mul2(mix_mul2(h)) == h,
        mix_mul2(unmix_mul2(h)) == h,
{
}

/// Unscrambling undoes scrambling, and the other way round.
pub proof fn lemma_scramble_inverse(x: u32)
    ensures
        spec_unscramble(spec_scramble(x)) == x,
        spec_scramble(spec_unscramble(x)) == x,
{
    let a = mix_shift16(x);
    let b = mix_mul1(a);
    let c = mix_shift13(b);
    let d = mix_mul2(c);
    lemma_shift16_self_inverse(mix_mul2(mix_shift13(mix_mul1(mix_shift16(x)))));
    lemma_mul2_inverse(c);
    lemma_shift13_inverse(b);
    lemma_mul1_inverse(a);
    lemma_shift16_self_inverse(x);
    let p = mix_shift16(x);
    let q = unmix_mul2(p);
    let r = unmix_shift13(q);
    let s = unmix_mul1(r);
    lemma_shift16_self_inverse(s);
    lemma_mul1_inverse(r);
    lemma_shift13_inverse(q);
    lemma_mul2_inverse(p);
}

/// Scrambling is a bijection of the 32-bit integers: distinct record numbers
/// never collide, and every key index is reached.
pub proof fn lemma_scramble_bijective()
    ensures
        forall|a: u32, b: u32| #[trigger] spec_scramble(a) == #[trigger] spec_scramble(b) ==> a
            == b,
        forall|y: u32| #[trigger] spec_scramble(spec_unscramble(y)) == y,
{
    assert forall|a: u32, b: u32|
        #[trigger] spec_scramble(a) == #[trigger] spec_scramble(b) implies a == b by {
        lemma_scramble_inverse(a);
        lemma_scramble_inverse(b);
    }
    assert forall|y: u32| #[trigger] spec_scramble(spec_unscramble(y)) == y by {
        lemma_scramble_inverse(y);
    }
}

/// Applies the avalanche rounds; each multiply widens to 64 bits and keeps
/// the low half, which is exactly multiplication modulo 2^32.
pub fn scramble(x: u32) -> (r: u32)
    ensures
        r == spec_scramble(x),
{
    let mut h = x;
    h = h ^ (h >> 16);
    h = #[verifier::truncate] (((h as u64) * 0x85eb_ca6b) as u32);
    h = h ^ (h >> 13);
    h = #[verifier::truncate] (((h as u64) * 0xc2b2_ae35) as u32);
    h = h ^ (h >> 16);
    h
}

/// Undoes `scramble`; inverse multipliers are the modular inverses of the
/// avalanche constants.
pub fn unscramble(y: u32) -> (r: u32)
    ensures
        r == spec_unscramble(y),
        spec_scramble(r) == y,
{
    proof {
        lemma_scramble_inverse(y);
    }
    let mut h = y;
    h = h ^ (h >> 16);
    h = #[verifier::truncate] (((h as u64) * 0x7ed1_b41d) as u32);
    h = h ^ (h >> 13) ^ (h >> 26);
    h = #[verifier::truncate] (((h as u64) * 0xa5cb_9243) as u32);
    h = h ^ (h >> 16);
    h
}

/// In scrambled mode a record number maps through the avalanche; in monotonic
/// mode it is used unchanged.
pub open spec fn map_key_spec(x: u32, random: bool) -> u32 {
    if random {
        spec_scramble(x)
    } else {
        x
    }
}

pub fn map_key(x: u32, random: bool) -> (r: u32)
    ensures
        r == map_key_spec(x, random),
{
    if random {
        scramble(x)
    } else {
        x
    }
}

pub proof fn lemma_map_key_injective(x: u32, y: u32, random: bool)
    requires
        x != y,
    ensures
        map_key_spec(x, random) != map_key_spec(y, random),
{
    if random {
        lemma_scramble_inverse(x);
        lemma_scramble_inverse(y);
    }
}

/// Concrete powers used by the fixed key widths.
pub proof fn lemma_pow_constants()
    ensures
        pow(10, 2) == 100,
        pow(10, 9) == 1_000_000_000,
        pow(10, 10) == 10_000_000_000,
        pow(256, 7) == 0x100_0000_0000_0000,
        pow(256, 8) == 0x1_0000_0000_0000_0000,
{
    reveal_with_fuel(pow, 12);
}

/// Zero-padded ASCII decimal digits of `x`, `width` characters wide.
pub open spec fn ascii_digits(x: nat, width: nat) -> Seq<u8> {
    ascii_of(digits_of(x, 10, width))
}

pub fn format_decimal(x: u32, width: u32) -> (r: Vec<u8>)
    requires
        (x as nat) < pow(10, width as nat),
        width <= 10,
    ensures
        r@ == ascii_digits(x as nat, width as nat),
        r@.len() == width,
{
    proof {
        lemma_pow_constants();
        vstd::arithmetic::power::lemma_pow_increases(10, (if width == 0 {
            0
        } else {
            (width - 1) as nat
        }), 9);
        lemma_digits_len(x as nat, 10, width as nat);
        lemma_digits_bounded(x as nat, 10, width as nat);
    }
    let ds = to_base_digits(x as u64, 10, width);
    let ghost dseq = digits_of(x as nat, 10, width as nat);
    let mut r: Vec<u8> = Vec::new();
    let mut i: usize = 0;
    while i < ds.len()
        invariant
            ds@ == dseq,
            ds@.len() == width,
            0 <= i <= width,
            forall|j: int| 0 <= j < dseq.len() ==> #[trigger] dseq[j] < 10,
            r@ == ascii_of(dseq.subrange(0, i as int)),
        decreases ds.len() - i,
    {
        r.push(ds[i] + 48);
        proof {
            assert(r@ =~= ascii_of(dseq.subrange(0, i + 1)));
        }
        i = i + 1;
    }
    proof {
        assert(dseq.subrange(0, width as int) =~= dseq);
    }
    r
}

/// `"user"` + two-digit stream number + `":"`: the partition label that
/// prefixes every text key of a stream.
pub open spec fn stream_prefix_spec(user: nat) -> Seq<u8> {
    seq![117u8, 115u8, 101u8, 114u8] + ascii_digits(user, 2) + seq![58u8]
}

/// Text key of record index `idx` in stream `user`:
/// `"userNN:DDDDDDDDDD"` with the index zero-padded to ten digits.
pub open spec fn text_key_spec(user: nat, idx: u32) -> Seq<u8> {
    stream_prefix_spec(user) + ascii_digits(idx as nat, 10)
}

pub fn text_key(user: u8, idx: u32) -> (r: Vec<u8>)
    requires
        user < 100,
    ensures
        r@ == text_key_spec(user as nat, idx),
        r@.len() == 17,
{
    proof {
        lemma_pow_constants();
    }
    let mut r: Vec<u8> = Vec::new();
    r.push(117);
    r.push(115);
    r.push(101);
    r.push(114);
    let mut user_digits = format_decimal(user as u32, 2);
    r.append(&mut user_digits);
    r.push(58);
    let mut idx_digits = format_decimal(idx, 10);
    r.append(&mut idx_digits);
    proof {
        assert(r@ =~= text_key_spec(user as nat, idx));
    }
    r
}

/// Raw big-endian integer key used by the partition-less workload.
pub open spec fn flat_key_spec(idx: u32) -> Seq<u8> {
    digits_of(idx as nat, 256, 8)
}

pub fn flat_key(idx: u32) -> (r: Vec<u8>)
    ensures
        r@ == flat_key_spec(idx),
        r@.len() == 8,
{
    proof {
        lemma_pow_constants();
    }
    to_base_digits(idx as u64, 256, 8)
}

/// Fixed widths of the two key shapes.
pub proof fn lemma_key_lens(user: nat, idx: u32)
    ensures
        text_key_spec(user, idx).len() == 17,
        flat_key_spec(idx).len() == 8,
{
    lemma_digits_len(user, 10, 2);
    lemma_digits_len(idx as nat, 10, 10);
    lemma_digits_len(idx as nat, 256, 8);
}

/// Within one stream, the numeric order of record indices is the
/// lexicographic order of their text keys, so range scans return records in
/// index order.
pub proof fn lemma_text_key_order(user: nat, x: u32, y: u32)
    requires
        x < y,
    ensures
        lex_less(text_key_spec(user, x), text_key_spec(user, y)),
{
    lemma_pow_constants();
    lemma_digits_order(x as nat, y as nat, 10, 10);
    lemma_digits_bounded(x as nat, 10, 10);
    lemma_digits_bounded(y as nat, 10, 10);
    lemma_digits_len(x as nat, 10, 10);
    lemma_digits_len(y as nat, 10, 10);
    lemma_ascii_shift_order(digits_of(x as nat, 10, 10), digits_of(y as nat, 10, 10));
    lemma_lex_common_prefix(
        stream_prefix_spec(user),
        ascii_digits(x as nat, 10),
        ascii_digits(y as nat, 10),
    );
}

/// Distinct record indices of one stream have distinct text keys.
pub proof fn lemma_text_key_injective(user: nat, x: u32, y: u32)
    requires
        x != y,
    ensures
        text_key_spec(user, x) != text_key_spec(user, y),
{
    if x < y {
        lemma_text_key_order(user, x, y);
        lemma_lex_total(text_key_spec(user, x), text_key_spec(user, y));
    } else {
        lemma_text_key_order(user, y, x);
        lemma_lex_total(text_key_spec(user, y), text_key_spec(user, x));
    }
}

/// Distinct indices have distinct big-endian keys, and their order is the
/// numeric order.
pub proof fn lemma_flat_key_order(x: u32, y: u32)
    requires
        x < y,
    ensures
        lex_less(flat_key_spec(x), flat_key_spec(y)),
        flat_key_spec(x) != flat_key_spec(y),
{
    lemma_pow_constants();
    lemma_digits_order(x as nat, y as nat, 256, 8);
    lemma_lex_total(flat_key_spec(x), flat_key_spec(y));
}

/// The key a record number is loaded under: partition-less workloads use the
/// raw big-endian key, all others the stream-prefixed text key.
pub open spec fn load_key_spec(cfg: RunConfig, user: nat, n: u32) -> Seq<u8> {
    if cfg.workload == Workload::TaskC {
        flat_key_spec(map_key_spec(n, cfg.random))
    } else {
        text_key_spec(user, map_key_spec(n, cfg.random))
    }
}

/// Number of bytes of every key of the run, fixed per workload.
pub open spec fn key_len_spec(cfg: RunConfig) -> nat {
    if cfg.workload == Workload::TaskC {
        8
    } else {
        17
    }
}

pub fn load_key(cfg: &RunConfig, user: u8, n: u32) -> (r: Vec<u8>)
    requires
        user < 100,
    ensures
        r@ == load_key_spec(*cfg, user as nat, n),
        r@.len() == key_len_spec(*cfg),
{
    let idx = map_key(n, cfg.random);
    if matches!(cfg.workload, Workload::TaskC) {
        flat_key(idx)
    } else {
        text_key(user, idx)
    }
}

/// Distinct record numbers load under distinct keys, whatever the layout
/// mode: the padding is injective and scrambling is a bijection.
pub proof fn lemma_load_key_injective(cfg: RunConfig, user: nat, m: u32, n: u32)
    requires
        m != n,
    ensures
        load_key_spec(cfg, user, m) != load_key_spec(cfg, user, n),
{
    lemma_map_key_injective(m, n, cfg.random);
    let im = map_key_spec(m, cfg.random);
    let inn = map_key_spec(n, cfg.random);
    if cfg.workload == Workload::TaskC {
        if im < inn {
            lemma_flat_key_order(im, inn);
        } else {
            lemma_flat_key_order(inn, im);
        }
    } else {
        lemma_text_key_injective(user, im, inn);
    }
}

} // verus!
