//! Big-integer helpers of the handshake: the big-endian byte-string
//! model, the proof-of-work solver and the fixed-width encoding of its
//! result.
//!
//! The server's puzzle asks for `y = x ^ (2 ^ level) mod n` where `x`
//! and `n` arrive as big-endian byte strings.  The arithmetic itself is
//! done by `num`; everything around it — the meaning of a byte string,
//! the exponent construction and the fixed 64-byte encoding of the
//! answer — is verified here.

use vstd::prelude::*;

verus! {

/// `base ^ e` over naturals.
pub open spec fn nat_pow(base: nat, e: nat) -> nat
    decreases e,
{
    if e == 0 {
        1
    } else {
        base * nat_pow(base, (e - 1) as nat)
    }
}

/// The value of a big-endian byte string.
pub open spec fn be_val(s: Seq<u8>) -> nat
    decreases s.len(),
{
    if s.len() == 0 {
        0
    } else {
        (s[0] as nat) * nat_pow(256, (s.len() - 1) as nat) + be_val(s.skip(1))
    }
}

/// The `len`-byte big-endian encoding of `v mod 256^len`.
pub open spec fn nat_to_be(v: nat, len: nat) -> Seq<u8>
    decreases len,
{
    if len == 0 {
        Seq::empty()
    } else {
        nat_to_be(v / 256, (len - 1) as nat).push((v % 256) as u8)
    }
}

pub proof fn lemma_nat_pow_pos(base: nat, e: nat)
    requires
        base > 0,
    ensures
        nat_pow(base, e) > 0,
    decreases e,
{
    if e > 0 {
        lemma_nat_pow_pos(base, (e - 1) as nat);
        assert(base * nat_pow(base, (e - 1) as nat) > 0) by (nonlinear_arith)
            requires
                base > 0,
                nat_pow(base, (e - 1) as nat) > 0,
        ;
    }
}

pub proof fn lemma_nat_pow_adds(base: nat, x: nat, y: nat)
    ensures
        nat_pow(base, x + y) == nat_pow(base, x) * nat_pow(base, y),
    decreases x,
{
    if x == 0 {
        assert(nat_pow(base, 0) == 1);
        assert(x + y == y);
        assert(1 * nat_pow(base, y) == nat_pow(base, y));
        assert(nat_pow(base, x + y) == nat_pow(base, x) * nat_pow(base, y));
    } else {
        lemma_nat_pow_adds(base, (x - 1) as nat, y);
        assert(nat_pow(base, x + y) == base * nat_pow(base, ((x - 1) + y) as nat));
        assert(base * (nat_pow(base, (x - 1) as nat) * nat_pow(base, y)) == (base * nat_pow(
            base,
            (x - 1) as nat,
        )) * nat_pow(base, y)) by (nonlinear_arith);
        assert(nat_pow(base, x) == base * nat_pow(base, (x - 1) as nat));
    }
}

pub proof fn lemma_nat_pow_mono_exp(base: nat, x: nat, y: nat)
    requires
        base >= 1,
        x <= y,
    ensures
        nat_pow(base, x) <= nat_pow(base, y),
    decreases y,
{
    if x < y {
        lemma_nat_pow_mono_exp(base, x, (y - 1) as nat);
        assert(nat_pow(base, (y - 1) as nat) <= base * nat_pow(base, (y - 1) as nat))
            by (nonlinear_arith)
            requires
                base >= 1,
        ;
    }
}

/// A byte string of length `len` encodes a value below `256^len`.
pub proof fn lemma_be_val_bound(s: Seq<u8>)
    ensures
        be_val(s) < nat_pow(256, s.len()),
    decreases s.len(),
{
    if s.len() == 0 {
    } else {
        let p = nat_pow(256, (s.len() - 1) as nat);
        lemma_be_val_bound(s.skip(1));
        assert((s[0] as nat) * p <= 255 * p) by (nonlinear_arith)
            requires
                s[0] <= 255,
                p >= 0,
        ;
        assert(255 * p + p == 256 * p);
    }
}

/// A byte string encodes zero exactly when every byte is zero.
pub proof fn lemma_be_val_zero(s: Seq<u8>)
    ensures
        be_val(s) == 0 <==> (forall|i: int| 0 <= i < s.len() ==> s[i] == 0),
    decreases s.len(),
{
    if s.len() > 0 {
        lemma_be_val_zero(s.skip(1));
        lemma_nat_pow_pos(256, (s.len() - 1) as nat);
        let p = nat_pow(256, (s.len() - 1) as nat);
        if s[0] != 0 {
            assert((s[0] as nat) * p >= p) by (nonlinear_arith)
                requires
                    s[0] >= 1,
                    p >= 0,
            ;
        }
        if be_val(s) == 0 {
            assert(forall|i: int|
                0 <= i < s.len() ==> s[i] == 0) by {
                assert forall|i: int| 0 <= i < s.len() implies s[i] == 0 by {
                    if i > 0 {
                        assert(s[i] == s.skip(1)[i - 1]);
                    }
                }
            }
        }
        if forall|i: int| 0 <= i < s.len() ==> s[i] == 0 {
            assert(forall|i: int| 0 <= i < s.skip(1).len() ==> s.skip(1)[i] == s[i + 1]);
            assert(be_val(s.skip(1)) == 0);
        }
    }
}

/// Leading zero bytes do not change the encoded value.
pub proof fn lemma_be_val_zero_prefix(z: Seq<u8>, s: Seq<u8>)
    requires
        forall|i: int| 0 <= i < z.len() ==> z[i] == 0,
    ensures
        be_val(z + s) == be_val(s),
    decreases z.len(),
{
    if z.len() == 0 {
        assert(z + s =~= s);
    } else {
        assert((z + s).skip(1) =~= z.skip(1) + s);
        lemma_be_val_zero_prefix(z.skip(1), s);
    }
}

/// A byte string with a non-zero first byte encodes at least `256^(len-1)`.
pub proof fn lemma_be_val_first_nonzero(s: Seq<u8>)
    requires
        s.len() > 0,
        s[0] != 0,
    ensures
        be_val(s) >= nat_pow(256, (s.len() - 1) as nat),
{
    let p = nat_pow(256, (s.len() - 1) as nat);
    assert((s[0] as nat) * p >= p) by (nonlinear_arith)
        requires
            s[0] >= 1,
            p >= 0,
    ;
}

/// Two byte strings of the same length with the same value are equal.
pub proof fn lemma_be_val_injective(s: Seq<u8>, t: Seq<u8>)
    requires
        s.len() == t.len(),
        be_val(s) == be_val(t),
    ensures
        s =~= t,
    decreases s.len(),
{
    if s.len() > 0 {
        let p = nat_pow(256, (s.len() - 1) as nat);
        lemma_be_val_bound(s.skip(1));
        lemma_be_val_bound(t.skip(1));
        assert(s[0] == t[0]) by (nonlinear_arith)
            requires
                (s[0] as nat) * p + be_val(s.skip(1)) == (t[0] as nat) * p + be_val(t.skip(1)),
                be_val(s.skip(1)) < p,
                be_val(t.skip(1)) < p,
        ;
        lemma_be_val_injective(s.skip(1), t.skip(1));
        assert(s =~= seq![s[0]] + s.skip(1));
        assert(t =~= seq![t[0]] + t.skip(1));
    }
}

/// Appending a byte multiplies the value by 256 and adds the byte.
pub proof fn lemma_be_val_push(s: Seq<u8>, b: u8)
    ensures
        be_val(s.push(b)) == 256 * be_val(s) + b,
    decreases s.len(),
{
    if s.len() == 0 {
        assert(s.push(b).len() == 1);
        assert(s.push(b)[0] == b);
        assert(s.push(b).skip(1) =~= Seq::<u8>::empty());
        assert(be_val(Seq::<u8>::empty()) == 0);
        assert(nat_pow(256, 0) == 1);
        assert(be_val(s.push(b)) == (b as nat) * 1 + 0);
        assert(be_val(s) == 0);
    } else {
        assert(s.push(b).skip(1) =~= s.skip(1).push(b));
        lemma_be_val_push(s.skip(1), b);
        let p = nat_pow(256, (s.len() - 1) as nat);
        assert(s.push(b)[0] == s[0]);
        assert(s.push(b).len() - 1 == s.len());
        assert(nat_pow(256, s.len() as nat) == 256 * p);
        assert(be_val(s.push(b)) == (s[0] as nat) * (256 * p) + (256 * be_val(s.skip(1)) + b));
        assert((s[0] as nat) * (256 * p) == 256 * ((s[0] as nat) * p)) by (nonlinear_arith);
        assert(be_val(s.push(b)) == 256 * be_val(s) + b);
    }
}

pub proof fn lemma_nat_to_be_len(v: nat, len: nat)
    ensures
        nat_to_be(v, len).len() == len,
    decreases len,
{
    if len > 0 {
        lemma_nat_to_be_len(v / 256, (len - 1) as nat);
    }
}

/// `256^k` and `2^(8k)` are the same power.
pub proof fn lemma_pow256_pow2(k: nat)
    ensures
        nat_pow(256, k) == nat_pow(2, 8 * k),
    decreases k,
{
    if k == 0 {
    } else {
        lemma_pow256_pow2((k - 1) as nat);
        lemma_nat_pow_adds(2, 8, 8 * (k - 1) as nat);
        assert(nat_pow(2, 8) == 256) by {
            reveal_with_fuel(nat_pow, 9);
        }
        assert(8 * k == 8 + 8 * ((k - 1) as nat));
        assert(nat_pow(256, k) == 256 * nat_pow(256, (k - 1) as nat));
    }
}

/// Encoding a value below `256^len` and reading it back is the identity.
pub proof fn lemma_nat_to_be_val(v: nat, len: nat)
    requires
        v < nat_pow(256, len),
    ensures
        be_val(nat_to_be(v, len)) == v,
    decreases len,
{
    if len == 0 {
    } else {
        assert(v / 256 < nat_pow(256, (len - 1) as nat)) by (nonlinear_arith)
            requires
                v < 256 * nat_pow(256, (len - 1) as nat),
        ;
        lemma_nat_to_be_val(v / 256, (len - 1) as nat);
        lemma_be_val_push(nat_to_be(v / 256, (len - 1) as nat), (v % 256) as u8);
    }
}

#[verifier::external_type_specification]
#[verifier::external_body]
pub struct ExBigUint(num::BigUint);

/// The natural number that a `num::BigUint` holds.  The wrappers below
/// state what each `num` call does in terms of this value.
pub uninterp spec fn biguint_nat(x: num::BigUint) -> nat;

/// Relies on num::BigUint::from_bytes_be: it reads a big-endian byte
/// string; an empty string reads as zero.
#[verifier::external_body]
pub fn biguint_from_bytes_be(b: &Vec<u8>) -> (r: num::BigUint)
    ensures
        biguint_nat(r) == be_val(b@),
{
    num::BigUint::from_bytes_be(b)
}

/// Relies on num::BigUint::modpow: it returns `self ^ exponent % modulus`
/// and panics when the modulus is zero, so that input is kept out.
#[verifier::external_body]
pub fn biguint_modpow(x: &num::BigUint, e: &num::BigUint, n: &num::BigUint) -> (r: num::BigUint)
    requires
        biguint_nat(*n) > 0,
    ensures
        biguint_nat(r) == nat_pow(biguint_nat(*x), biguint_nat(*e)) % biguint_nat(*n),
{
    x.modpow(e, n)
}

/// Relies on num::BigUint::to_bytes_be: it writes the value as its
/// shortest big-endian byte string (no leading zero byte), except that
/// zero is written as the single byte `0`.
#[verifier::external_body]
pub fn biguint_to_bytes_be(x: &num::BigUint) -> (r: Vec<u8>)
    ensures
        be_val(r@) == biguint_nat(*x),
        r@.len() >= 1,
        biguint_nat(*x) == 0 ==> r@.len() == 1,
        biguint_nat(*x) != 0 ==> r@[0] != 0,
{
    x.to_bytes_be()
}

/// Whether a big-endian byte string encodes zero.
pub fn bytes_all_zero(v: &Vec<u8>) -> (r: bool)
    ensures
        r == (be_val(v@) == 0),
{
    let mut i: usize = 0;
    while i < v.len()
        invariant
            0 <= i <= v@.len(),
            forall|j: int| 0 <= j < i ==> v@[j] == 0,
        decreases v@.len() - i,
    {
        if v[i] != 0 {
            proof {
                lemma_be_val_zero(v@);
            }
            return false;
        }
        i += 1;
    }
    proof {
        lemma_be_val_zero(v@);
    }
    true
}

/// The big-endian byte string of `2 ^ level`: one leading byte
/// `2 ^ (level mod 8)` followed by `level div 8` zero bytes.
pub fn pow2_bytes(level: u32) -> (r: Vec<u8>)
    ensures
        be_val(r@) == nat_pow(2, level as nat),
        r@.len() == (level / 8) as nat + 1,
{
    let rem: u32 = level % 8;
    let quot: usize = (level / 8) as usize;
    let first: u8 = if rem == 0 {
        1
    } else if rem == 1 {
        2
    } else if rem == 2 {
        4
    } else if rem == 3 {
        8
    } else if rem == 4 {
        16
    } else if rem == 5 {
        32
    } else if rem == 6 {
        64
    } else {
        128
    };
    proof {
        assert(first as nat == nat_pow(2, rem as nat)) by {
            reveal_with_fuel(nat_pow, 9);
        }
    }
    let mut v: Vec<u8> = Vec::new();
    v.push(first);
    let mut i: usize = 0;
    while i < quot
        invariant
            0 <= i <= quot,
            v@.len() == i + 1,
            v@[0] == first,
            forall|j: int| 1 <= j < v@.len() ==> v@[j] == 0,
        decreases quot - i,
    {
        v.push(0u8);
        i += 1;
    }
    proof {
        assert(v@.skip(1).len() == quot);
        assert(forall|j: int| 0 <= j < v@.skip(1).len() ==> v@.skip(1)[j] == 0);
        lemma_be_val_zero(v@.skip(1));
        assert(be_val(v@) == (first as nat) * nat_pow(256, quot as nat) + 0);
        lemma_pow256_pow2(quot as nat);
        lemma_nat_pow_adds(2, rem as nat, 8 * quot as nat);
        assert((first as nat) * nat_pow(2, 8 * quot as nat) == nat_pow(2, rem as nat) * nat_pow(
            2,
            8 * quot as nat,
        ));
        assert(rem as nat + 8 * quot as nat == level as nat);
    }
    v
}

/// Encode a big integer below `256^64` at the fixed 64-byte width of the
/// wire format, left-padded with zero bytes.
pub fn biguint_to_array(v: &num::BigUint) -> (r: Vec<u8>)
    requires
        biguint_nat(*v) < nat_pow(256, 64),
    ensures
        r@ == nat_to_be(biguint_nat(*v), 64),
        r@.len() == 64,
        be_val(r@) == biguint_nat(*v),
{
    let b = biguint_to_bytes_be(v);
    proof {
        if biguint_nat(*v) != 0 {
            lemma_be_val_first_nonzero(b@);
            if b@.len() > 64 {
                lemma_nat_pow_mono_exp(256, 64, (b@.len() - 1) as nat);
                assert(false);
            }
        }
    }
    let pad: usize = 64 - b.len();
    let mut r: Vec<u8> = Vec::new();
    let mut i: usize = 0;
    while i < pad
        invariant
            0 <= i <= pad,
            r@.len() == i,
            forall|j: int| 0 <= j < i ==> r@[j] == 0,
        decreases pad - i,
    {
        r.push(0u8);
        i += 1;
    }
    let ghost zeros = r@;
    let mut j: usize = 0;
    while j < b.len()
        invariant
            0 <= j <= b@.len(),
            r@ == zeros + b@.take(j as int),
            zeros.len() == pad,
            pad + b@.len() == 64,
        decreases b@.len() - j,
    {
        proof {
            assert(zeros + b@.take(j as int + 1) =~= (zeros + b@.take(j as int)).push(b@[j as int]));
        }
        let byte = b[j];
        r.push(byte);
        j += 1;
    }
    proof {
        assert(r@ =~= zeros + b@);
        lemma_be_val_zero_prefix(zeros, b@);
        lemma_nat_to_be_len(biguint_nat(*v), 64);
        lemma_nat_to_be_val(biguint_nat(*v), 64);
        lemma_be_val_injective(r@, nat_to_be(biguint_nat(*v), 64));
    }
    r
}

/// The puzzle answer as a number: `x ^ (2 ^ level) mod n`.
pub open spec fn rsa_puzzle_val(x: nat, n: nat, level: u32) -> nat
    recommends
        n > 0,
{
    nat_pow(x, nat_pow(2, level as nat)) % n
}

/// Solve the server's proof-of-work puzzle `y = x ^ (2 ^ level) mod n`,
/// with `x` and `n` given big-endian, and encode `y` at the fixed
/// 64-byte width.  A zero modulus has no answer.
pub fn solve_rsa_puzzle(x: &Vec<u8>, n: &Vec<u8>, level: u32) -> (r: Option<Vec<u8>>)
    requires
        n@.len() <= 64,
    ensures
        r is Some <==> be_val(n@) != 0,
        r matches Some(y) ==> y@ == nat_to_be(rsa_puzzle_val(be_val(x@), be_val(n@), level), 64),
{
    if bytes_all_zero(n) {
        return None;
    }
    let xi = biguint_from_bytes_be(x);
    let ni = biguint_from_bytes_be(n);
    let e_bytes = pow2_bytes(level);
    let ei = biguint_from_bytes_be(&e_bytes);
    let yi = biguint_modpow(&xi, &ei, &ni);
    proof {
        lemma_be_val_bound(n@);
        lemma_nat_pow_mono_exp(256, n@.len(), 64);
        assert(biguint_nat(yi) < be_val(n@));
    }
    Some(biguint_to_array(&yi))
}

/// Law: reading a 64-byte big-endian string as a big integer and writing
/// it back at the codec width is the identity.
pub proof fn lemma_fixed_width_roundtrip(a: Seq<u8>)
    requires
        a.len() == 64,
    ensures
        nat_to_be(be_val(a), 64) == a,
{
    lemma_be_val_bound(a);
    lemma_nat_to_be_len(be_val(a), 64);
    lemma_nat_to_be_val(be_val(a), 64);
    lemma_be_val_injective(nat_to_be(be_val(a), 64), a);
}

/// Law: with `level = 0` the puzzle answer is `x mod n`.
pub proof fn lemma_rsa_level_zero(x: nat, n: nat)
    requires
        n > 0,
    ensures
        rsa_puzzle_val(x, n, 0) == x % n,
{
    assert(nat_pow(2, 0) == 1);
    assert(nat_pow(x, 1) == x * nat_pow(x, 0));
    assert(nat_pow(x, 0) == 1);
    assert(nat_pow(x, 1) == x) by (nonlinear_arith)
        requires
            nat_pow(x, 1) == x * nat_pow(x, 0),
            nat_pow(x, 0) == 1,
    ;
    assert(rsa_puzzle_val(x, n, 0) == nat_pow(x, nat_pow(2, 0u32 as nat)) % n);
    assert(nat_pow(2, 0u32 as nat) == 1);
}

} // verus!
