//! Byte-sequence lexicographic order and fixed-width positional digit
//! expansions. Keys are zero-padded digit strings, and range scans rely on
//! the fact that for equal-width expansions the lexicographic order of the
//! digit strings is exactly the numeric order of the values.

use vstd::arithmetic::div_mod::{
    lemma_div_is_ordered, lemma_fundamental_div_mod, lemma_multiply_divide_lt,
};
use vstd::arithmetic::mul::lemma_mul_inequality;
use vstd::arithmetic::power::{lemma_pow_positive, pow};
use vstd::prelude::*;

verus! {

/// Strict lexicographic (shortlex within a shared prefix) order on byte
/// sequences: the order every ordered key-value store sorts its keys by.
pub open spec fn lex_less(a: Seq<u8>, b: Seq<u8>) -> bool
    decreases a.len(),
{
    if b.len() == 0 {
        false
    } else if a.len() == 0 {
        true
    } else if a[0] < b[0] {
        true
    } else if a[0] > b[0] {
        false
    } else {
        lex_less(a.subrange(1, a.len() as int), b.subrange(1, b.len() as int))
    }
}

pub open spec fn lex_leq(a: Seq<u8>, b: Seq<u8>) -> bool {
    lex_less(a, b) || a == b
}

pub proof fn lemma_lex_irreflexive(a: Seq<u8>)
    ensures
        !lex_less(a, a),
    decreases a.len(),
{
    if a.len() > 0 {
        lemma_lex_irreflexive(a.subrange(1, a.len() as int));
    }
}

/// Of two distinct sequences, exactly one precedes the other; equal ones are
/// ordered neither way.
pub proof fn lemma_lex_total(a: Seq<u8>, b: Seq<u8>)
    ensures
        lex_less(a, b) || lex_less(b, a) || a == b,
        lex_less(a, b) ==> !lex_less(b, a) && a != b,
        lex_less(b, a) ==> !lex_less(a, b) && a != b,
    decreases a.len(),
{
    lemma_lex_irreflexive(a);
    lemma_lex_irreflexive(b);
    if a.len() > 0 && b.len() > 0 && a[0] == b[0] {
        let a1 = a.subrange(1, a.len() as int);
        let b1 = b.subrange(1, b.len() as int);
        lemma_lex_total(a1, b1);
        if a1 == b1 {
            assert forall|i: int| 0 <= i < a.len() implies a[i] == b[i] by {
                if i > 0 {
                    assert(a[i] == a1[i - 1]);
                    assert(b[i] == b1[i - 1]);
                }
            }
            assert(a =~= b);
        }
    }
}

pub proof fn lemma_lex_transitive(a: Seq<u8>, b: Seq<u8>, c: Seq<u8>)
    requires
        lex_less(a, b),
        lex_less(b, c),
    ensures
        lex_less(a, c),
    decreases a.len(),
{
    if a.len() > 0 && b.len() > 0 && c.len() > 0 && a[0] == b[0] && b[0] == c[0] {
        lemma_lex_transitive(
            a.subrange(1, a.len() as int),
            b.subrange(1, b.len() as int),
            c.subrange(1, c.len() as int),
        );
    }
}

/// Sharing a prefix changes nothing about the relative order of two tails.
pub proof fn lemma_lex_common_prefix(p: Seq<u8>, a: Seq<u8>, b: Seq<u8>)
    ensures
        lex_less(p + a, p + b) <==> lex_less(a, b),
    decreases p.len(),
{
    if p.len() == 0 {
        assert(p + a =~= a);
        assert(p + b =~= b);
    } else {
        let p1 = p.subrange(1, p.len() as int);
        assert((p + a).subrange(1, (p + a).len() as int) =~= p1 + a);
        assert((p + b).subrange(1, (p + b).len() as int) =~= p1 + b);
        lemma_lex_common_prefix(p1, a, b);
    }
}

/// One unfolding of the (opaque) power function.
pub proof fn lemma_pow_unfold(b: int, e: nat)
    requires
        e >= 1,
    ensures
        pow(b, e) == b * pow(b, (e - 1) as nat),
{
    reveal(pow);
}

/// The fixed-width base-`base` expansion of `x`, most significant digit
/// first, as raw digit values (not ASCII).
pub open spec fn digits_of(x: nat, base: nat, len: nat) -> Seq<u8>
    decreases len,
{
    if len == 0 {
        Seq::empty()
    } else {
        let p = pow(base as int, (len - 1) as nat);
        seq![((x as int / p) as u8)] + digits_of((x as int % p) as nat, base, (len - 1) as nat)
    }
}

pub proof fn lemma_digits_len(x: nat, base: nat, len: nat)
    requires
        base >= 2,
    ensures
        digits_of(x, base, len).len() == len,
    decreases len,
{
    if len > 0 {
        let p = pow(base as int, (len - 1) as nat);
        lemma_pow_positive(base as int, (len - 1) as nat);
        lemma_digits_len((x as int % p) as nat, base, (len - 1) as nat);
    }
}

/// Every digit of a value that fits in the width is below the base.
pub proof fn lemma_digits_bounded(x: nat, base: nat, len: nat)
    requires
        2 <= base,
        x < pow(base as int, len),
    ensures
        forall|i: int|
            0 <= i < digits_of(x, base, len).len() ==> #[trigger] digits_of(x, base, len)[i]
                < base,
    decreases len,
{
    if len > 0 {
        let p = pow(base as int, (len - 1) as nat);
        lemma_pow_positive(base as int, (len - 1) as nat);
        lemma_pow_unfold(base as int, len);
        assert(pow(base as int, len) == base * p);
        let q = x as int / p;
        let r = x as int % p;
        lemma_fundamental_div_mod(x as int, p);
        vstd::arithmetic::mul::lemma_mul_is_commutative(base as int, p);
        lemma_multiply_divide_lt(x as int, p, base as int);
        vstd::arithmetic::div_mod::lemma_div_pos_is_pos(x as int, p);
        assert(q < base);
        lemma_digits_bounded(r as nat, base, (len - 1) as nat);
        let d = digits_of(x, base, len);
        let dt = digits_of(r as nat, base, (len - 1) as nat);
        assert forall|i: int| 0 <= i < d.len() implies #[trigger] d[i] < base by {
            if i > 0 {
                assert(d[i] == dt[i - 1]);
            }
        }
    }
}

/// Numeric order of values is lexicographic order of their equal-width
/// expansions: the invariant that lets zero-padded keys scan in insert order.
pub proof fn lemma_digits_order(x: nat, y: nat, base: nat, len: nat)
    requires
        2 <= base <= 256,
        x < y,
        y < pow(base as int, len),
    ensures
        lex_less(digits_of(x, base, len), digits_of(y, base, len)),
    decreases len,
{
    lemma_pow_positive(base as int, len);
    if len == 0 {
        assert(pow(base as int, 0) == 1) by {
            vstd::arithmetic::power::lemma_pow0(base as int);
        }
        assert(false);
    } else {
        let p = pow(base as int, (len - 1) as nat);
        lemma_pow_positive(base as int, (len - 1) as nat);
        lemma_pow_unfold(base as int, len);
        assert(pow(base as int, len) == base * p);
        let qx = x as int / p;
        let qy = y as int / p;
        let rx = x as int % p;
        let ry = y as int % p;
        lemma_fundamental_div_mod(x as int, p);
        lemma_fundamental_div_mod(y as int, p);
        vstd::arithmetic::mul::lemma_mul_is_commutative(base as int, p);
        lemma_multiply_divide_lt(y as int, p, base as int);
        lemma_multiply_divide_lt(x as int, p, base as int);
        vstd::arithmetic::div_mod::lemma_div_pos_is_pos(x as int, p);
        vstd::arithmetic::div_mod::lemma_div_pos_is_pos(y as int, p);
        lemma_div_is_ordered(x as int, y as int, p);
        assert(0 <= qx < 256 && 0 <= qy < 256);
        let dx = digits_of(x, base, len);
        let dy = digits_of(y, base, len);
        assert(dx[0] == qx as u8 && dy[0] == qy as u8);
        if qx < qy {
            assert(dx[0] < dy[0]);
        } else {
            assert(qx == qy);
            assert(x as int == p * qx + rx && y as int == p * qy + ry);
            assert(rx < ry);
            lemma_digits_order(rx as nat, ry as nat, base, (len - 1) as nat);
            assert(dx.subrange(1, dx.len() as int) =~= digits_of(
                rx as nat,
                base,
                (len - 1) as nat,
            ));
            assert(dy.subrange(1, dy.len() as int) =~= digits_of(
                ry as nat,
                base,
                (len - 1) as nat,
            ));
        }
    }
}

/// The ASCII decimal rendering of a digit sequence.
pub open spec fn ascii_of(s: Seq<u8>) -> Seq<u8> {
    s.map_values(|d: u8| (d + 48) as u8)
}

/// Rendering digits as ASCII preserves their lexicographic order, because
/// shifting every digit by the same offset keeps each comparison.
pub proof fn lemma_ascii_shift_order(a: Seq<u8>, b: Seq<u8>)
    requires
        lex_less(a, b),
        forall|i: int| 0 <= i < a.len() ==> a[i] < 10,
        forall|i: int| 0 <= i < b.len() ==> b[i] < 10,
    ensures
        lex_less(ascii_of(a), ascii_of(b)),
    decreases a.len(),
{
    if a.len() == 0 {
        assert(ascii_of(a).len() == 0 && ascii_of(b).len() == b.len());
    } else if a[0] < b[0] {
        assert(ascii_of(a)[0] < ascii_of(b)[0]);
    } else {
        let a1 = a.subrange(1, a.len() as int);
        let b1 = b.subrange(1, b.len() as int);
        lemma_ascii_shift_order(a1, b1);
        assert(ascii_of(a).subrange(1, ascii_of(a).len() as int) =~= ascii_of(a1));
        assert(ascii_of(b).subrange(1, ascii_of(b).len() as int) =~= ascii_of(b1));
        assert(ascii_of(a)[0] == ascii_of(b)[0]);
    }
}

/// Exact power computation used when slicing off the leading digit.
pub fn pow_exec(base: u64, e: u32) -> (r: u64)
    requires
        2 <= base,
        pow(base as int, e as nat) <= u64::MAX,
    ensures
        r as int == pow(base as int, e as nat),
{
    let mut i: u32 = 0;
    let mut r: u64 = 1;
    proof {
        vstd::arithmetic::power::lemma_pow0(base as int);
    }
    while i < e
        invariant
            0 <= i <= e,
            2 <= base,
            r as int == pow(base as int, i as nat),
            pow(base as int, e as nat) <= u64::MAX,
        decreases e - i,
    {
        proof {
            lemma_pow_positive(base as int, i as nat);
            lemma_pow_positive(base as int, ((e - i) - 1) as nat);
            vstd::arithmetic::power::lemma_pow_adds(base as int, (i + 1) as nat, ((e - i)
                - 1) as nat);
            lemma_pow_unfold(base as int, (i + 1) as nat);
            assert(pow(base as int, (i + 1) as nat) == base * pow(base as int, i as nat)) by {
                vstd::arithmetic::mul::lemma_mul_is_commutative(base as int, pow(base as int, i as nat));
            }
            lemma_mul_inequality(1, pow(base as int, ((e - i) - 1) as nat), pow(
                base as int,
                (i + 1) as nat,
            ));
        }
        r = r * base;
        i = i + 1;
    }
    r
}

/// Writes the fixed-width base-`base` expansion of `x`, most significant
/// digit first.
pub fn to_base_digits(x: u64, base: u64, width: u32) -> (r: Vec<u8>)
    requires
        2 <= base <= 256,
        (x as nat) < pow(base as int, width as nat),
        width == 0 || pow(base as int, (width - 1) as nat) <= u64::MAX,
    ensures
        r@ == digits_of(x as nat, base as nat, width as nat),
        r@.len() == width,
    decreases width,
{
    proof {
        lemma_digits_len(x as nat, base as nat, width as nat);
    }
    if width == 0 {
        Vec::new()
    } else {
        let p = pow_exec(base, width - 1);
        proof {
            lemma_pow_positive(base as int, (width - 1) as nat);
            lemma_pow_unfold(base as int, width as nat);
            assert(pow(base as int, width as nat) == base * pow(base as int, (width - 1) as nat));
            vstd::arithmetic::mul::lemma_mul_is_commutative(base as int, p as int);
            lemma_multiply_divide_lt(x as int, p as int, base as int);
            lemma_fundamental_div_mod(x as int, p as int);
            if width >= 2 {
                lemma_pow_unfold(base as int, (width - 1) as nat);
                assert(pow(base as int, (width - 1) as nat) == base * pow(
                    base as int,
                    (width - 2) as nat,
                ));
                lemma_pow_positive(base as int, (width - 2) as nat);
                lemma_mul_inequality(1, base as int, pow(base as int, (width - 2) as nat));
                vstd::arithmetic::mul::lemma_mul_is_commutative(base as int, pow(base as int, (
                width - 2) as nat));
            }
        }
        let d = x / p;
        assert(d < 256);
        let rem = x % p;
        let mut r: Vec<u8> = Vec::new();
        r.push(d as u8);
        let mut tail = to_base_digits(rem, base, width - 1);
        r.append(&mut tail);
        proof {
            assert(r@ =~= digits_of(x as nat, base as nat, width as nat));
        }
        r
    }
}

} // verus!
