//! The binary codec ("modem"): a canonical, self-terminating bit-level
//! serialisation of nested-list values.
//!
//! Encoding rules:
//! - `Nil` is the two bits `00`.
//! - `Cons(head, tail)` is `11`, then the encoding of `head`, then the
//!   encoding of `tail`; each sub-encoding is self-terminating, so no
//!   separators or length prefixes are needed.
//! - `Number(n)` is two sign bits (`01` for `n >= 0`, `10` for `n < 0`),
//!   then a unary length code (`k` one-bits, then a zero, where `k` is the
//!   number of 4-bit nibbles needed to hold `|n|`), then `|n|` written in
//!   exactly `4k` bits, most significant bit first.  Zero is `010`.

use vstd::prelude::*;
use vstd::arithmetic::power2::{pow2, lemma_pow2_adds, lemma_pow2_pos, lemma2_to64};
use vstd::arithmetic::div_mod::{lemma_fundamental_div_mod, lemma_div_denominator};
use vstd::bits::lemma_u64_shr_is_div;
use vstd::slice::slice_index_get;
use crate::nested::NestedList;
use crate::errors::Error;

verus! {

/// The magnitude of an integer.
pub open spec fn mag(n: int) -> nat {
    if n >= 0 {
        n as nat
    } else {
        (-n) as nat
    }
}

/// How many 4-bit nibbles are needed to hold `m` (0 for `m == 0`).
pub open spec fn nibble_count(m: nat) -> nat
    decreases m,
{
    if m == 0 {
        0
    } else {
        1 + nibble_count(m / 16)
    }
}

/// Bit `j` of `m`, counting from the least significant bit.
pub open spec fn bit_at(m: nat, j: nat) -> bool {
    (m / pow2(j)) % 2 == 1
}

/// `m` written in exactly `width` bits, most significant bit first.
pub open spec fn num_bits(m: nat, width: nat) -> Seq<bool> {
    Seq::new(width, |i: int| bit_at(m, (width - 1 - i) as nat))
}

/// `k` one-bits.
pub open spec fn ones(k: nat) -> Seq<bool> {
    Seq::new(k, |i: int| true)
}

/// The bit encoding of the number `n`.
pub open spec fn spec_mod_num(n: int) -> Seq<bool> {
    let m = mag(n);
    let k = nibble_count(m);
    (if n >= 0 {
        seq![false, true]
    } else {
        seq![true, false]
    }) + ones(k) + seq![false] + num_bits(m, 4 * k)
}

/// The bit encoding of a nested-list value.
pub open spec fn spec_mod(v: NestedList) -> Seq<bool>
    decreases v,
{
    match v {
        NestedList::Nil => seq![false, false],
        NestedList::Number(n) => spec_mod_num(n as int),
        NestedList::Cons(a, b) => seq![true, true] + spec_mod(*a) + spec_mod(*b),
    }
}

/// The number read MSB-first from a whole bit sequence.
pub open spec fn bits_value(bits: Seq<bool>) -> nat
    decreases bits.len(),
{
    if bits.len() == 0 {
        0
    } else {
        2 * bits_value(bits.drop_last()) + (if bits.last() {
            1nat
        } else {
            0nat
        })
    }
}

/// The number of consecutive one-bits before the first zero, or `None` if
/// the sequence ends before a zero is found.
pub open spec fn count_ones_prefix(bits: Seq<bool>) -> Option<nat>
    decreases bits.len(),
{
    if bits.len() == 0 {
        None
    } else if !bits[0] {
        Some(0)
    } else {
        match count_ones_prefix(bits.skip(1)) {
            None => None,
            Some(k) => Some(k + 1),
        }
    }
}

/// Decodes a number body (after the two sign bits): the unary nibble count,
/// then the magnitude.  Returns the value and how many bits were consumed,
/// or `None` when the input is truncated or the value does not fit a 64-bit
/// signed number.
pub open spec fn spec_dem_num(bits: Seq<bool>, negative: bool) -> Option<(i64, nat)> {
    match count_ones_prefix(bits) {
        None => None,
        Some(k) => if k + 1 + 4 * k <= bits.len() {
            let m = bits_value(bits.subrange((k + 1) as int, (k + 1 + 4 * k) as int));
            if negative {
                if m <= 0x8000_0000_0000_0000 {
                    Some(((-(m as int)) as i64, (k + 1 + 4 * k) as nat))
                } else {
                    None
                }
            } else {
                if m <= 0x7fff_ffff_ffff_ffff {
                    Some((m as i64, (k + 1 + 4 * k) as nat))
                } else {
                    None
                }
            }
        } else {
            None
        },
    }
}

/// Decodes one value from the front of `bits`: the value and how many bits
/// it occupied, or `None` when the input is truncated or malformed.
pub open spec fn spec_dem(bits: Seq<bool>) -> Option<(NestedList, nat)>
    decreases bits.len(),
{
    if bits.len() < 2 {
        None
    } else if !bits[0] && !bits[1] {
        Some((NestedList::Nil, 2))
    } else if bits[0] && bits[1] {
        match spec_dem(bits.skip(2)) {
            None => None,
            Some((h, nh)) => if nh + 2 <= bits.len() {
                match spec_dem(bits.skip(2 + nh as int)) {
                    None => None,
                    Some((t, nt)) => Some(
                        (NestedList::Cons(Box::new(h), Box::new(t)), 2 + nh + nt),
                    ),
                }
            } else {
                None
            },
        }
    } else {
        match spec_dem_num(bits.skip(2), bits[0]) {
            None => None,
            Some((v, n)) => Some((NestedList::Number(v), 2 + n)),
        }
    }
}

/// Encodes a nested-list value as a bit vector.
pub fn mod_list(list: &NestedList) -> (r: Vec<bool>)
    ensures
        r@ == spec_mod(*list),
{
    let mut res: Vec<bool> = Vec::new();
    modulate(list, &mut res);
    res
}

/// Appends the encoding of `val` to `res`.
pub fn modulate(val: &NestedList, res: &mut Vec<bool>)
    ensures
        final(res)@ == old(res)@ + spec_mod(*val),
    decreases *val,
{
    match val {
        NestedList::Number(number) => {
            modulate_value(*number, res);
        },
        NestedList::Nil => {
            res.push(false);
            res.push(false);
            proof {
                assert(res@ =~= old(res)@ + spec_mod(*val));
            }
        },
        NestedList::Cons(a, b) => {
            res.push(true);
            res.push(true);
            modulate(a, res);
            modulate(b, res);
            proof {
                assert(res@ =~= old(res)@ + spec_mod(*val));
            }
        },
    }
}

proof fn lemma_nibble_count_le(m: nat, k: nat)
    requires
        m < pow2(4 * k),
    ensures
        nibble_count(m) <= k,
    decreases m,
{
    if m == 0 {
    } else {
        lemma_pow2_pos(4 * k);
        if k == 0 {
            assert(pow2(0) == 1) by {
                lemma2_to64();
            }
        } else {
            assert(pow2(4 * k) == pow2((4 * (k - 1)) as nat) * 16) by {
                lemma_pow2_adds((4 * (k - 1)) as nat, 4);
                lemma2_to64();
            }
            assert(m / 16 < pow2((4 * (k - 1)) as nat));
            lemma_nibble_count_le(m / 16, (k - 1) as nat);
        }
    }
}

proof fn lemma_nibble_count_bound(m: nat)
    ensures
        m < pow2(4 * nibble_count(m)),
    decreases m,
{
    if m == 0 {
        lemma_pow2_pos(0);
    } else {
        let k = nibble_count(m);
        lemma_nibble_count_bound(m / 16);
        assert(pow2(4 * k) == pow2((4 * (k - 1)) as nat) * 16) by {
            lemma_pow2_adds((4 * (k - 1)) as nat, 4);
            lemma2_to64();
        }
        assert(m == 16 * (m / 16) + m % 16) by {
            lemma_fundamental_div_mod(m as int, 16);
        }
        assert(m < pow2(4 * k)) by {
            assert(m / 16 + 1 <= pow2((4 * (k - 1)) as nat));
            assert(16 * (m / 16) + 16 <= 16 * pow2((4 * (k - 1)) as nat)) by (nonlinear_arith)
                requires
                    m / 16 + 1 <= pow2((4 * (k - 1)) as nat),
            ;
        }
    }
}

/// Appends the encoding of the number `signed_num` to `res`.
pub fn modulate_value(signed_num: i64, res: &mut Vec<bool>)
    ensures
        final(res)@ == old(res)@ + spec_mod_num(signed_num as int),
{
    if signed_num >= 0 {
        res.push(false);
        res.push(true);
    } else {
        res.push(true);
        res.push(false);
    }
    let num: u64 = if signed_num == i64::MIN {
        9223372036854775808u64
    } else if signed_num < 0 {
        (-signed_num) as u64
    } else {
        signed_num as u64
    };
    proof {
        assert(num as nat == mag(signed_num as int));
    }

    // Count the nibbles needed to represent the magnitude.
    let mut k: u64 = 0;
    let mut t: u64 = num;
    proof {
        assert(pow2(64) == 0x1_0000_0000_0000_0000) by {
            lemma2_to64();
            lemma_pow2_adds(32, 32);
        }
        lemma_nibble_count_le(num as nat, 16);
    }
    while t > 0
        invariant
            nibble_count(num as nat) == k + nibble_count(t as nat),
            nibble_count(num as nat) <= 16,
        decreases t,
    {
        proof {
            assert(nibble_count(t as nat) == 1 + nibble_count((t / 16) as nat));
        }
        t = t / 16;
        k = k + 1;
    }
    proof {
        assert(nibble_count(num as nat) == k as nat);
    }

    let ghost base = res@;
    let mut i: u64 = 0;
    while i < k
        invariant
            i <= k,
            res@ == base + ones(i as nat),
        decreases k - i,
    {
        res.push(true);
        i = i + 1;
        proof {
            assert(res@ =~= base + ones(i as nat));
        }
    }
    res.push(false);
    proof {
        assert(res@ =~= base + ones(k as nat) + seq![false]);
    }

    let ghost base2 = res@;
    let total: u64 = 4 * k;
    let mut j: u64 = 0;
    while j < total
        invariant
            j <= total,
            total == 4 * k,
            k <= 16,
            res@ == base2 + num_bits(num as nat, total as nat).take(j as int),
        decreases total - j,
    {
        let shift: u64 = total - 1 - j;
        let bit = (num >> shift) & 1 == 1;
        proof {
            lemma_u64_shr_is_div(num, shift);
            assert((num >> shift) & 1 == (num >> shift) % 2) by (bit_vector);
            assert(bit == bit_at(num as nat, shift as nat));
        }
        res.push(bit);
        j = j + 1;
        proof {
            assert(res@ =~= base2 + num_bits(num as nat, total as nat).take(j as int));
        }
    }
    proof {
        assert(num_bits(num as nat, total as nat).take(total as int) =~= num_bits(
            num as nat,
            total as nat,
        ));
        assert(res@ =~= old(res)@ + spec_mod_num(signed_num as int));
    }
}

proof fn lemma_bits_value_bound(s: Seq<bool>)
    ensures
        bits_value(s) < pow2(s.len()),
    decreases s.len(),
{
    if s.len() == 0 {
        lemma_pow2_pos(0);
        assert(pow2(0) == 1) by {
            lemma2_to64();
        }
    } else {
        lemma_bits_value_bound(s.drop_last());
        assert(pow2(s.len()) == 2 * pow2((s.len() - 1) as nat)) by {
            lemma_pow2_adds(1, (s.len() - 1) as nat);
            lemma2_to64();
        }
    }
}

proof fn lemma_bits_value_append(s1: Seq<bool>, s2: Seq<bool>)
    ensures
        bits_value(s1 + s2) == bits_value(s1) * pow2(s2.len()) + bits_value(s2),
    decreases s2.len(),
{
    if s2.len() == 0 {
        assert(s1 + s2 =~= s1);
        assert(pow2(0) == 1) by {
            lemma2_to64();
        }
    } else {
        assert((s1 + s2).drop_last() =~= s1 + s2.drop_last());
        assert((s1 + s2).last() == s2.last());
        lemma_bits_value_append(s1, s2.drop_last());
        let v1 = bits_value(s1);
        let l = s2.len();
        assert(pow2(l) == 2 * pow2((l - 1) as nat)) by {
            lemma_pow2_adds(1, (l - 1) as nat);
            lemma2_to64();
        }
        assert(2 * (v1 * pow2((l - 1) as nat)) == v1 * (2 * pow2((l - 1) as nat)))
            by (nonlinear_arith);
    }
}

proof fn lemma_num_bits_inverse(m: nat, w: nat)
    requires
        m < pow2(w),
    ensures
        bits_value(num_bits(m, w)) == m,
    decreases w,
{
    if w == 0 {
        assert(pow2(0) == 1) by {
            lemma2_to64();
        }
    } else {
        let s = num_bits(m, w);
        assert(pow2(w) == 2 * pow2((w - 1) as nat)) by {
            lemma_pow2_adds(1, (w - 1) as nat);
            lemma2_to64();
        }
        assert(m == 2 * (m / 2) + m % 2) by {
            lemma_fundamental_div_mod(m as int, 2);
        }
        assert(m / 2 < pow2((w - 1) as nat));
        assert forall|i: int| 0 <= i < w - 1 implies s.drop_last()[i] == num_bits(
            m / 2,
            (w - 1) as nat,
        )[i] by {
            let j = (w - 2 - i) as nat;
            assert((m / 2) / pow2(j) == m / pow2(j + 1)) by {
                lemma_pow2_pos(j);
                lemma_div_denominator(m as int, 2, pow2(j) as int);
                lemma_pow2_adds(1, j);
                assert(pow2(1) == 2) by {
                    lemma2_to64();
                }
            }
        }
        assert(s.drop_last() =~= num_bits(m / 2, (w - 1) as nat));
        lemma_num_bits_inverse(m / 2, (w - 1) as nat);
        assert(pow2(0) == 1) by {
            lemma2_to64();
        }
        assert(s.last() == bit_at(m, 0));
        assert(bits_value(s) == 2 * (m / 2) + m % 2);
    }
}

proof fn lemma_count_ones_skip(s: Seq<bool>, k: nat)
    requires
        k <= s.len(),
        forall|i: int| 0 <= i < k ==> s[i] == true,
    ensures
        count_ones_prefix(s) == match count_ones_prefix(s.skip(k as int)) {
            None => None::<nat>,
            Some(j) => Some((k + j) as nat),
        },
    decreases k,
{
    if k == 0 {
        assert(s.skip(0) =~= s);
    } else {
        assert(s[0]);
        let s1 = s.skip(1);
        assert(forall|i: int| 0 <= i < k - 1 ==> s1[i] == true);
        lemma_count_ones_skip(s1, (k - 1) as nat);
        assert(s1.skip(k - 1) =~= s.skip(k as int));
    }
}

/// When `spec_dem` succeeds it consumes at least two and at most all bits.
proof fn lemma_dem_len(bits: Seq<bool>)
    ensures
        spec_dem(bits) matches Some(p) ==> 2 <= p.1 <= bits.len(),
    decreases bits.len(),
{
    if bits.len() >= 2 && bits[0] && bits[1] {
        lemma_dem_len(bits.skip(2));
        match spec_dem(bits.skip(2)) {
            Some((h, nh)) => {
                if nh + 2 <= bits.len() {
                    lemma_dem_len(bits.skip(2 + nh as int));
                }
            },
            None => {},
        }
    }
}

proof fn lemma_dem_num_round(n: int, rest: Seq<bool>)
    requires
        -0x8000_0000_0000_0000 <= n <= 0x7fff_ffff_ffff_ffff,
    ensures
        ({
            let m = mag(n);
            let k = nibble_count(m);
            spec_dem_num(ones(k) + seq![false] + num_bits(m, 4 * k) + rest, n < 0) == Some(
                (n as i64, (k + 1 + 4 * k) as nat),
            )
        }),
{
    let m = mag(n);
    let k = nibble_count(m);
    let body = ones(k) + seq![false] + num_bits(m, 4 * k) + rest;
    assert forall|i: int| 0 <= i < k implies body[i] == true by {}
    lemma_count_ones_skip(body, k);
    assert(body.skip(k as int)[0] == false);
    assert(count_ones_prefix(body.skip(k as int)) == Some(0nat));
    assert(count_ones_prefix(body) == Some(k));
    assert(k + 1 + 4 * k <= body.len());
    assert(body.subrange((k + 1) as int, (k + 1 + 4 * k) as int) =~= num_bits(m, 4 * k));
    lemma_nibble_count_bound(m);
    lemma_num_bits_inverse(m, 4 * k);
    if n < 0 {
        assert(m <= 0x8000_0000_0000_0000);
        assert((-(m as int)) as i64 == n as i64);
    } else {
        assert(m <= 0x7fff_ffff_ffff_ffff);
    }
}

/// For every representable value the codec round-trips exactly: decoding a
/// bit stream that starts with the encoding of `v` yields `v` back and
/// consumes exactly the encoding, leaving `rest` untouched.
pub proof fn lemma_round_trip(v: NestedList, rest: Seq<bool>)
    ensures
        spec_dem(spec_mod(v) + rest) == Some((v, spec_mod(v).len())),
    decreases v,
{
    let bits = spec_mod(v) + rest;
    match v {
        NestedList::Nil => {
            assert(bits[0] == false && bits[1] == false);
        },
        NestedList::Number(n) => {
            let m = mag(n as int);
            let k = nibble_count(m);
            let sign = if n >= 0 {
                seq![false, true]
            } else {
                seq![true, false]
            };
            assert(bits[0] == sign[0] && bits[1] == sign[1]);
            assert(bits.len() >= 2);
            assert(!(bits[0] && bits[1]) && !(!bits[0] && !bits[1]));
            assert(bits.skip(2) =~= ones(k) + seq![false] + num_bits(m, 4 * k) + rest);
            lemma_dem_num_round(n as int, rest);
            assert(bits[0] == (n < 0));
            assert(spec_dem(bits) == Some(
                (NestedList::Number(n), (2 + (k + 1 + 4 * k)) as nat),
            ));
            assert(spec_mod(v).len() == 2 + (k + 1) + 4 * k);
        },
        NestedList::Cons(a, b) => {
            let ea = spec_mod(*a);
            let eb = spec_mod(*b);
            assert(bits[0] == true && bits[1] == true);
            assert(bits.skip(2) =~= ea + (eb + rest));
            lemma_round_trip(*a, eb + rest);
            let nh = ea.len();
            assert(2 + nh <= bits.len());
            assert(bits.skip(2 + nh as int) =~= eb + rest);
            lemma_round_trip(*b, rest);
            assert(spec_dem(bits) == Some(
                (NestedList::Cons(Box::new(*a), Box::new(*b)), (2 + nh + eb.len()) as nat),
            ));
            assert(NestedList::Cons(Box::new(*a), Box::new(*b)) == v);
        },
    }
}

/// The encoding is canonical: distinct values never share a bit string.
pub proof fn lemma_canonical(v1: NestedList, v2: NestedList)
    requires
        spec_mod(v1) == spec_mod(v2),
    ensures
        v1 == v2,
{
    lemma_round_trip(v1, Seq::empty());
    lemma_round_trip(v2, Seq::empty());
}

/// Reads the bit at the cursor and advances it; reports a malformed
/// encoding when the input is exhausted.
pub fn iter_next(data: &[bool], pos: &mut usize) -> (r: Result<bool, Error>)
    ensures
        *old(pos) < data@.len() ==> r == Ok::<bool, Error>(data@[*old(pos) as int])
            && *final(pos) == *old(pos) + 1,
        *old(pos) >= data@.len() ==> r == Err::<bool, Error>(Error::MalformedEncoding)
            && *final(pos) == *old(pos),
{
    if *pos < data.len() {
        let b = *slice_index_get(data, *pos);
        *pos = *pos + 1;
        Ok(b)
    } else {
        Err(Error::MalformedEncoding)
    }
}

/// Decodes a number body starting at `pos` (the two sign bits having been
/// consumed already): the value and the cursor after it.
#[verifier::rlimit(50)]
pub fn demodulate_value(negative: bool, data: &[bool], pos: usize) -> (r: Result<
    (i64, usize),
    Error,
>)
    requires
        pos <= data@.len(),
    ensures
        ({
            let rem = data@.skip(pos as int);
            match spec_dem_num(rem, negative) {
                Some(p) => r == Ok::<(i64, usize), Error>((p.0, (pos + p.1) as usize)),
                None => r == Err::<(i64, usize), Error>(Error::MalformedEncoding),
            }
        }),
{
    let ghost rem = data@.skip(pos as int);
    let mut cur: usize = pos;
    let mut k: usize = 0;
    while cur < data.len() && *slice_index_get(data, cur)
        invariant
            pos + k == cur,
            cur <= data@.len(),
            rem == data@.skip(pos as int),
            forall|i: int| 0 <= i < k ==> rem[i] == true,
        decreases data@.len() - cur,
    {
        cur = cur + 1;
        k = k + 1;
    }
    proof {
        lemma_count_ones_skip(rem, k as nat);
    }
    if cur >= data.len() {
        // The unary length code never ended.
        proof {
            assert(rem.skip(k as int).len() == 0);
            assert(count_ones_prefix(rem) is None);
        }
        return Err(Error::MalformedEncoding);
    }
    proof {
        assert(rem.skip(k as int)[0] == false);
        assert(rem.skip(k as int).len() > 0);
        assert(count_ones_prefix(rem.skip(k as int)) == Some(0nat));
        assert(count_ones_prefix(rem) == Some(k as nat));
    }
    // Skip the terminating zero bit.
    cur = cur + 1;
    let remaining = data.len() - cur;
    if k > remaining / 4 {
        // Fewer than 4k magnitude bits are left.
        proof {
            assert(4 * k > remaining) by {
                assert(remaining / 4 < k);
                assert(4 * (remaining / 4) + remaining % 4 == remaining) by {
                    lemma_fundamental_div_mod(remaining as int, 4);
                }
            }
            assert(k + 1 + 4 * k > rem.len());
        }
        return Err(Error::MalformedEncoding);
    }
    proof {
        assert(4 * k <= remaining) by {
            assert(4 * (remaining / 4) + remaining % 4 == remaining) by {
                lemma_fundamental_div_mod(remaining as int, 4);
            }
        }
    }
    let total: usize = 4 * k;
    let dlen = data.len();
    let ghost mbits = rem.subrange((k + 1) as int, (k + 1 + 4 * k) as int);
    let mut res: u64 = 0;
    let mut j: usize = 0;
    while j < total
        invariant
            j <= total,
            total == 4 * k,
            pos + k + 1 + j == cur,
            cur + (total - j) <= dlen,
            dlen == data@.len(),
            pos <= data@.len(),
            count_ones_prefix(rem) == Some(k as nat),
            rem == data@.skip(pos as int),
            mbits == rem.subrange((k + 1) as int, (k + 1 + 4 * k) as int),
            k + 1 + 4 * k <= rem.len(),
            res as nat == bits_value(mbits.take(j as int)),
        decreases total - j,
    {
        if res >= 0x8000_0000_0000_0000u64 {
            // Any further bit pushes the magnitude beyond the 64-bit signed range.
            proof {
                let done = mbits.take(j as int);
                let rest = mbits.skip(j as int);
                assert(mbits =~= done + rest);
                lemma_bits_value_append(done, rest);
                assert(rest.len() >= 1);
                assert(pow2(rest.len()) >= 2) by {
                    lemma_pow2_adds(1, (rest.len() - 1) as nat);
                    lemma_pow2_pos((rest.len() - 1) as nat);
                    assert(pow2(1) == 2) by {
                        lemma2_to64();
                    }
                }
                assert(bits_value(done) * pow2(rest.len()) >= 0x8000_0000_0000_0000 * 2)
                    by (nonlinear_arith)
                    requires
                        bits_value(done) >= 0x8000_0000_0000_0000,
                        pow2(rest.len()) >= 2,
                ;
                assert(bits_value(mbits) > 0x8000_0000_0000_0000);
                assert(spec_dem_num(rem, negative) is None);
            }
            return Err(Error::MalformedEncoding);
        }
        let b = *slice_index_get(data, cur);
        let ghost prev = mbits.take(j as int);
        proof {
            assert(mbits[j as int] == data@[cur as int]);
        }
        cur = cur + 1;
        res = 2 * res + (if b {
            1
        } else {
            0
        });
        j = j + 1;
        proof {
            let x = mbits[j - 1];
            assert(prev.push(x).drop_last() =~= prev);
            assert(prev.push(x).last() == x);
            assert(mbits.take(j as int) =~= prev.push(x));
            assert(bits_value(prev.push(x)) == 2 * bits_value(prev) + (if x {
                1nat
            } else {
                0nat
            }));
        }
    }
    proof {
        assert(mbits.take(total as int) =~= mbits);
    }
    if negative {
        if res <= 0x8000_0000_0000_0000u64 {
            let v: i64 = if res == 0x8000_0000_0000_0000u64 {
                i64::MIN
            } else {
                -(res as i64)
            };
            Ok((v, cur))
        } else {
            Err(Error::MalformedEncoding)
        }
    } else {
        if res <= 0x7fff_ffff_ffff_ffffu64 {
            Ok((res as i64, cur))
        } else {
            Err(Error::MalformedEncoding)
        }
    }
}

/// Decodes one value starting at `pos`, returning it together with the
/// cursor just past its encoding; the rest of the input is untouched, which
/// is what lets nested structures decode without length prefixes.
pub fn demodulate(data: &[bool], pos: usize) -> (r: Result<(NestedList, usize), Error>)
    requires
        pos <= data@.len(),
    ensures
        ({
            let rem = data@.skip(pos as int);
            match spec_dem(rem) {
                Some(p) => r matches Ok(q) && q.0 == p.0 && q.1 == pos + p.1,
                None => r == Err::<(NestedList, usize), Error>(Error::MalformedEncoding),
            }
        }),
    decreases data@.len() - pos,
{
    let ghost rem = data@.skip(pos as int);
    if data.len() - pos < 2 {
        return Err(Error::MalformedEncoding);
    }
    let b0 = *slice_index_get(data, pos);
    let b1 = *slice_index_get(data, pos + 1);
    if !b0 && !b1 {
        Ok((NestedList::Nil, pos + 2))
    } else if b0 && b1 {
        proof {
            assert(rem.skip(2) =~= data@.skip(pos + 2));
            lemma_dem_len(rem.skip(2));
        }
        match demodulate(data, pos + 2) {
            Err(e) => Err(e),
            Ok((h, p1)) => {
                proof {
                    assert(data@.skip(p1 as int) =~= rem.skip(p1 - pos));
                    lemma_dem_len(rem.skip(p1 - pos));
                }
                match demodulate(data, p1) {
                    Err(e) => Err(e),
                    Ok((t, p2)) => Ok((NestedList::Cons(Box::new(h), Box::new(t)), p2)),
                }
            },
        }
    } else {
        proof {
            assert(rem.skip(2) =~= data@.skip(pos + 2));
        }
        match demodulate_value(b0, data, pos + 2) {
            Err(e) => Err(e),
            Ok((v, p1)) => Ok((NestedList::Number(v), p1)),
        }
    }
}

/// Decodes a bit vector that is known to start with a well-formed encoding;
/// trailing bits are ignored.
pub fn dem_list(data: &[bool]) -> (r: NestedList)
    requires
        spec_dem(data@) is Some,
    ensures
        match spec_dem(data@) {
            Some(p) => r == p.0,
            None => false,
        },
{
    proof {
        assert(data@.skip(0) =~= data@);
    }
    match demodulate(data, 0) {
        Ok((v, _)) => v,
        Err(_) => {
            proof {
                assert(false);
            }
            NestedList::Nil
        },
    }
}

} // verus!
