//! Decimal strings and fixed-width integers.
//!
//! On-chain payloads carry every number as a decimal string. Fields that are
//! guaranteed to fit a fixed-width integer are parsed here, with a fallback
//! value on malformed input (the pipeline absorbs parse errors rather than
//! rejecting events). Fields that may exceed 64-bit range are kept as decimal
//! strings end to end; the only arithmetic on them is the explicit
//! decimal-string addition and comparison defined in this module.

use vstd::prelude::*;
use vstd::string::StringExecFns;

verus! {

/// `c` is one of the characters `'0'` through `'9'`.
pub open spec fn is_digit(c: char) -> bool {
    48 <= c as u32 && c as u32 <= 57
}

/// Numeric value of a digit character.
pub open spec fn digit_val(c: char) -> nat {
    (c as u32 - 48) as nat
}

pub open spec fn all_digits(s: Seq<char>) -> bool {
    forall|i: int| 0 <= i < s.len() ==> is_digit(#[trigger] s[i])
}

/// Value of a digit string, most significant digit first.
pub open spec fn dec_val(s: Seq<char>) -> nat
    decreases s.len(),
{
    if s.len() == 0 {
        0
    } else {
        dec_val(s.drop_last()) * 10 + digit_val(s.last())
    }
}

/// The digit character for a value 0 through 9 (and `'9'` above that).
pub open spec fn digit_char(d: nat) -> char {
    if d == 0 {
        '0'
    } else if d == 1 {
        '1'
    } else if d == 2 {
        '2'
    } else if d == 3 {
        '3'
    } else if d == 4 {
        '4'
    } else if d == 5 {
        '5'
    } else if d == 6 {
        '6'
    } else if d == 7 {
        '7'
    } else if d == 8 {
        '8'
    } else {
        '9'
    }
}

/// The canonical decimal rendering of `n`: no sign, no leading zero.
pub open spec fn dec_repr(n: nat) -> Seq<char>
    decreases n,
{
    if n < 10 {
        seq![digit_char(n)]
    } else {
        dec_repr(n / 10).push(digit_char(n % 10))
    }
}

pub open spec fn pow10(k: nat) -> nat
    decreases k,
{
    if k == 0 {
        1
    } else {
        10 * pow10((k - 1) as nat)
    }
}

/// A prefix of a digit string never exceeds the whole string in value.
pub proof fn lemma_dec_val_take_le(s: Seq<char>, j: int)
    requires
        0 <= j <= s.len(),
    ensures
        dec_val(s.take(j)) <= dec_val(s),
    decreases s.len() - j,
{
    if j == s.len() {
        assert(s.take(j) =~= s);
    } else {
        assert(s.take(j + 1).drop_last() =~= s.take(j));
        assert(dec_val(s.take(j + 1)) == dec_val(s.take(j)) * 10 + digit_val(s.take(j + 1).last()));
        lemma_dec_val_take_le(s, j + 1);
    }
}

/// Digits accumulated so far, with a bound that rules out overflow.
///
/// Scans `s` from position `start`; returns the value of the digit suffix when
/// every remaining character is a digit and the value is at most `limit`, and
/// `None` otherwise.
pub fn parse_digits_bounded(s: &str, start: usize, limit: u128) -> (r: Option<u128>)
    requires
        start <= s@.len(),
        limit >= 9,
    ensures
        all_digits(s@.skip(start as int)) && dec_val(s@.skip(start as int)) <= limit ==> r
            == Some(dec_val(s@.skip(start as int)) as u128),
        !(all_digits(s@.skip(start as int)) && dec_val(s@.skip(start as int)) <= limit) ==> r
            is None,
{
    let ghost t = s@.skip(start as int);
    let n: usize = s.unicode_len();
    let mut acc: u128 = 0;
    let mut i: usize = start;
    while i < n
        invariant
            start <= i <= n,
            n == s@.len(),
            t == s@.skip(start as int),
            limit >= 9,
            all_digits(t.take(i - start)),
            acc == dec_val(t.take(i - start)),
            acc <= limit,
        decreases n - i,
    {
        let c: char = s.get_char(i);
        proof {
            assert(t[i - start] == s@[i as int]);
        }
        let u: u32 = c as u32;
        if u < 48 || u > 57 {
            proof {
                assert(!is_digit(t[i - start]));
            }
            return None;
        }
        let d: u128 = (u - 48) as u128;
        proof {
            assert(t.take(i - start + 1).drop_last() =~= t.take(i - start));
            assert(t.take(i - start + 1).last() == t[i - start]);
            assert(dec_val(t.take(i - start + 1)) == acc * 10 + d);
        }
        if acc > (limit - d) / 10 {
            proof {
                let q = (limit - d) / 10;
                assert((limit - d) == 10 * q + (limit - d) % 10);
                assert(acc * 10 >= (q + 1) * 10) by (nonlinear_arith)
                    requires
                        acc >= q + 1,
                ;
                assert(acc * 10 + d > limit);
                if all_digits(t) && dec_val(t) <= limit {
                    lemma_dec_val_take_le(t, i - start + 1);
                    assert(false);
                }
            }
            return None;
        }
        proof {
            let q = (limit - d) / 10;
            assert((limit - d) == 10 * q + (limit - d) % 10);
            assert(acc * 10 <= q * 10) by (nonlinear_arith)
                requires
                    acc <= q,
            ;
            assert(acc * 10 + d <= limit);
        }
        acc = acc * 10 + d;
        i = i + 1;
    }
    proof {
        assert(t.take(i - start) =~= t);
    }
    Some(acc)
}

/// The digit part of an optionally signed decimal string.
pub open spec fn signed_body(s: Seq<char>) -> Seq<char> {
    if s.len() >= 1 && (s[0] == '+' || s[0] == '-') {
        s.skip(1)
    } else {
        s
    }
}

pub open spec fn is_neg(s: Seq<char>) -> bool {
    s.len() >= 1 && s[0] == '-'
}

/// `s` is an optionally signed, non-empty run of digits: the strings the
/// standard integer parser accepts, range aside.
pub open spec fn valid_int_format(s: Seq<char>) -> bool {
    signed_body(s).len() >= 1 && all_digits(signed_body(s))
}

pub open spec fn int_of(s: Seq<char>) -> int {
    if is_neg(s) {
        -(dec_val(signed_body(s)) as int)
    } else {
        dec_val(signed_body(s)) as int
    }
}

/// What the conversion boundary yields for an `i64` field: the string's value
/// when it is a well-formed in-range integer, the fallback otherwise.
pub open spec fn i64_or(s: Seq<char>, fallback: int) -> int {
    if valid_int_format(s) && i64::MIN <= int_of(s) && int_of(s) <= i64::MAX {
        int_of(s)
    } else {
        fallback
    }
}

/// As `i64_or`, for `i32` fields.
pub open spec fn i32_or(s: Seq<char>, fallback: int) -> int {
    if valid_int_format(s) && i32::MIN <= int_of(s) && int_of(s) <= i32::MAX {
        int_of(s)
    } else {
        fallback
    }
}

/// Value of an unsigned decimal string that fits `u128`, and zero otherwise.
pub open spec fn u128_or_zero(s: Seq<char>) -> nat {
    if s.len() >= 1 && all_digits(s) && dec_val(s) <= u128::MAX {
        dec_val(s)
    } else {
        0
    }
}

/// Parses an `i64` with a fallback on malformed or out-of-range input.
pub fn parse_i64_or(s: &str, fallback: i64) -> (r: i64)
    ensures
        r as int == i64_or(s@, fallback as int),
{
    let n: usize = s.unicode_len();
    if n == 0 {
        return fallback;
    }
    let c0: char = s.get_char(0);
    let neg: bool = c0 == '-';
    let signed: bool = neg || c0 == '+';
    let start: usize = if signed {
        1
    } else {
        0
    };
    if start == n {
        return fallback;
    }
    let limit: u128 = if neg {
        9223372036854775808
    } else {
        9223372036854775807
    };
    proof {
        assert(signed_body(s@) == s@.skip(start as int));
    }
    match parse_digits_bounded(s, start, limit) {
        Option::Some(v) => {
            if neg {
                let r: i64 = (-(v as i128)) as i64;
                proof {
                    assert(r as int == int_of(s@));
                }
                r
            } else {
                v as i64
            }
        },
        Option::None => fallback,
    }
}

/// Parses an `i32` with a fallback on malformed or out-of-range input.
pub fn parse_i32_or(s: &str, fallback: i32) -> (r: i32)
    ensures
        r as int == i32_or(s@, fallback as int),
{
    let n: usize = s.unicode_len();
    if n == 0 {
        return fallback;
    }
    let c0: char = s.get_char(0);
    let neg: bool = c0 == '-';
    let signed: bool = neg || c0 == '+';
    let start: usize = if signed {
        1
    } else {
        0
    };
    if start == n {
        return fallback;
    }
    let limit: u128 = if neg {
        2147483648
    } else {
        2147483647
    };
    proof {
        assert(signed_body(s@) == s@.skip(start as int));
    }
    match parse_digits_bounded(s, start, limit) {
        Option::Some(v) => {
            if neg {
                let r: i32 = (-(v as i64)) as i32;
                proof {
                    assert(r as int == int_of(s@));
                }
                r
            } else {
                v as i32
            }
        },
        Option::None => fallback,
    }
}

/// Parses an unsigned amount that fits `u128`, and yields zero otherwise.
pub fn parse_u128_or_zero(s: &str) -> (r: u128)
    ensures
        r as nat == u128_or_zero(s@),
{
    let n: usize = s.unicode_len();
    if n == 0 {
        return 0;
    }
    match parse_digits_bounded(s, 0, u128::MAX) {
        Option::Some(v) => {
            proof {
                assert(s@.skip(0) =~= s@);
            }
            v
        },
        Option::None => {
            proof {
                assert(s@.skip(0) =~= s@);
            }
            0
        },
    }
}

/// Digit values at most 9, most significant first.
pub open spec fn le9(ds: Seq<u8>) -> bool {
    forall|i: int| 0 <= i < ds.len() ==> #[trigger] ds[i] <= 9
}

/// Value of a sequence of digit values, most significant first.
pub open spec fn val_msd(ds: Seq<u8>) -> nat
    decreases ds.len(),
{
    if ds.len() == 0 {
        0
    } else {
        val_msd(ds.drop_last()) * 10 + ds.last() as nat
    }
}

/// The digit characters spelling a sequence of digit values.
pub open spec fn chars_of(ds: Seq<u8>) -> Seq<char> {
    Seq::new(ds.len(), |i: int| digit_char(ds[i] as nat))
}

/// A digit-value sequence that spells a canonical rendering: non-empty, digits
/// at most 9, and no leading zero unless it is the single digit zero.
pub open spec fn canonical(ds: Seq<u8>) -> bool {
    ds.len() >= 1 && le9(ds) && (ds.len() > 1 ==> ds[0] != 0)
}

pub proof fn lemma_pow10_pos(k: nat)
    ensures
        pow10(k) >= 1,
    decreases k,
{
    if k > 0 {
        lemma_pow10_pos((k - 1) as nat);
    }
}

/// Prepending a digit adds its value at the next power of ten.
pub proof fn lemma_val_msd_cons(d: u8, s: Seq<u8>)
    ensures
        val_msd(seq![d] + s) == d * pow10(s.len()) + val_msd(s),
    decreases s.len(),
{
    if s.len() == 0 {
        assert(seq![d] + s =~= seq![d]);
        assert(seq![d].drop_last() =~= Seq::<u8>::empty());
        assert(val_msd(Seq::<u8>::empty()) == 0);
        assert(seq![d].last() == d);
        assert(val_msd(seq![d]) == d);
        assert(val_msd(s) == 0);
        assert(pow10(s.len()) == 1);
    } else {
        assert((seq![d] + s).drop_last() =~= seq![d] + s.drop_last());
        assert((seq![d] + s).last() == s.last());
        lemma_val_msd_cons(d, s.drop_last());
        assert(val_msd(seq![d] + s) == (d * pow10((s.len() - 1) as nat) + val_msd(s.drop_last()))
            * 10 + s.last());
        assert(d * pow10((s.len() - 1) as nat) * 10 == d * pow10(s.len())) by (nonlinear_arith)
            requires
                pow10(s.len()) == 10 * pow10((s.len() - 1) as nat),
        ;
    }
}

/// A canonical digit-value sequence spells exactly `dec_repr` of its value.
pub proof fn lemma_canonical_repr(ds: Seq<u8>)
    requires
        canonical(ds),
    ensures
        chars_of(ds) =~= dec_repr(val_msd(ds)),
    decreases ds.len(),
{
    if ds.len() == 1 {
        assert(ds.drop_last() =~= Seq::<u8>::empty());
        assert(val_msd(Seq::<u8>::empty()) == 0);
        assert(ds.last() == ds[0]);
        assert(val_msd(ds) == ds[0]);
    } else {
        let w = val_msd(ds.drop_last());
        let v = val_msd(ds);
        assert(ds.drop_last() =~= seq![ds[0]] + ds.drop_last().skip(1));
        lemma_val_msd_cons(ds[0], ds.drop_last().skip(1));
        lemma_pow10_pos(ds.drop_last().skip(1).len() as nat);
        assert(w >= ds[0] * pow10(ds.drop_last().skip(1).len() as nat));
        assert(ds[0] * pow10(ds.drop_last().skip(1).len() as nat) >= 1) by (nonlinear_arith)
            requires
                ds[0] >= 1,
                pow10(ds.drop_last().skip(1).len() as nat) >= 1,
        ;
        assert(v == w * 10 + ds.last());
        assert(v >= 10);
        assert(v / 10 == w && v % 10 == ds.last()) by (nonlinear_arith)
            requires
                v == w * 10 + ds.last(),
                0 <= ds.last() <= 9,
        ;
        lemma_canonical_repr(ds.drop_last());
        assert(chars_of(ds) =~= chars_of(ds.drop_last()).push(digit_char(ds.last() as nat)));
    }
}

pub proof fn lemma_digit_roundtrip(d: nat)
    requires
        d <= 9,
    ensures
        is_digit(digit_char(d)),
        digit_val(digit_char(d)) == d,
{
}

/// `dec_repr` really renders `n`: all digits, non-empty, and reading it back
/// gives `n`.
pub proof fn lemma_dec_repr_val(n: nat)
    ensures
        all_digits(dec_repr(n)),
        dec_repr(n).len() >= 1,
        dec_val(dec_repr(n)) == n,
    decreases n,
{
    if n < 10 {
        lemma_digit_roundtrip(n);
        assert(dec_repr(n) =~= seq![digit_char(n)]);
        assert(dec_repr(n).drop_last() =~= Seq::<char>::empty());
        assert(dec_val(Seq::<char>::empty()) == 0);
        assert(dec_val(dec_repr(n)) == digit_val(digit_char(n)));
    } else {
        lemma_dec_repr_val(n / 10);
        lemma_digit_roundtrip(n % 10);
        assert(dec_repr(n).drop_last() =~= dec_repr(n / 10));
        assert(dec_repr(n).last() == digit_char(n % 10));
        assert(dec_val(dec_repr(n)) == (n / 10) * 10 + n % 10);
        assert(n == (n / 10) * 10 + n % 10);
        assert forall|i: int| 0 <= i < dec_repr(n).len() implies is_digit(
            #[trigger] dec_repr(n)[i],
        ) by {
            if i < dec_repr(n).len() - 1 {
                assert(dec_repr(n)[i] == dec_repr(n / 10)[i]);
            }
        }
    }
}

/// The one-character string for a digit value.
pub fn digit_str(d: u8) -> (r: &'static str)
    requires
        d <= 9,
    ensures
        r@ =~= seq![digit_char(d as nat)],
{
    proof {
        reveal_strlit("0");
        reveal_strlit("1");
        reveal_strlit("2");
        reveal_strlit("3");
        reveal_strlit("4");
        reveal_strlit("5");
        reveal_strlit("6");
        reveal_strlit("7");
        reveal_strlit("8");
        reveal_strlit("9");
    }
    match d {
        0 => "0",
        1 => "1",
        2 => "2",
        3 => "3",
        4 => "4",
        5 => "5",
        6 => "6",
        7 => "7",
        8 => "8",
        _ => "9",
    }
}

/// Spells a digit-value sequence as a string.
pub fn string_of_digits(ds: &Vec<u8>) -> (r: String)
    requires
        le9(ds@),
    ensures
        r@ =~= chars_of(ds@),
{
    let mut r: String = String::new();
    let mut j: usize = 0;
    while j < ds.len()
        invariant
            j <= ds@.len(),
            le9(ds@),
            r@ =~= chars_of(ds@.take(j as int)),
        decreases ds@.len() - j,
    {
        let piece: &str = digit_str(ds[j]);
        r.append(piece);
        proof {
            assert(chars_of(ds@.take(j + 1)) =~= chars_of(ds@.take(j as int)) + seq![
                digit_char(ds@[j as int] as nat),
            ]);
        }
        j = j + 1;
    }
    proof {
        assert(ds@.take(ds@.len() as int) =~= ds@);
    }
    r
}

/// The canonical digit values of `n`.
pub fn digits_of_u128(n: u128) -> (ds: Vec<u8>)
    ensures
        canonical(ds@),
        val_msd(ds@) == n as nat,
{
    if n == 0 {
        let ds: Vec<u8> = vec![0];
        proof {
            assert(ds@.drop_last() =~= Seq::<u8>::empty());
            assert(val_msd(Seq::<u8>::empty()) == 0);
            assert(ds@.last() == 0);
        }
        return ds;
    }
    let mut ds: Vec<u8> = Vec::new();
    let mut m: u128 = n;
    proof {
        assert(val_msd(Seq::<u8>::empty()) == 0);
        assert(pow10(0) == 1);
    }
    while m > 0
        invariant
            m as nat * pow10(ds@.len() as nat) + val_msd(ds@) == n as nat,
            le9(ds@),
            m == 0 ==> ds@.len() >= 1 && ds@[0] != 0,
            m > 0 || ds@.len() >= 1,
        decreases m,
    {
        let d: u8 = (m % 10) as u8;
        let ghost old_ds = ds@;
        let ghost old_m = m as nat;
        ds.insert(0, d);
        m = m / 10;
        proof {
            assert(ds@ =~= seq![d] + old_ds);
            lemma_val_msd_cons(d, old_ds);
            assert(pow10(ds@.len() as nat) == 10 * pow10(old_ds.len() as nat));
            assert(old_m == 10 * (old_m / 10) + old_m % 10);
            assert((10 * (old_m / 10) + old_m % 10) * pow10(old_ds.len() as nat) == (old_m / 10)
                * (10 * pow10(old_ds.len() as nat)) + (old_m % 10) * pow10(old_ds.len() as nat))
                by (nonlinear_arith);
            assert(m as nat * pow10(ds@.len() as nat) + val_msd(ds@) == n as nat);
        }
    }
    proof {
        lemma_pow10_pos(ds@.len() as nat);
    }
    ds
}

/// Renders `n` in decimal.
pub fn render_u128(n: u128) -> (r: String)
    ensures
        r@ =~= dec_repr(n as nat),
{
    let ds: Vec<u8> = digits_of_u128(n);
    proof {
        lemma_canonical_repr(ds@);
    }
    string_of_digits(&ds)
}

/// The decimal rendering of a signed value, `'-'` first when negative.
pub open spec fn i64_repr(v: int) -> Seq<char> {
    if v < 0 {
        seq!['-'] + dec_repr((-v) as nat)
    } else {
        dec_repr(v as nat)
    }
}

/// Renders a signed value in decimal.
pub fn render_i64(v: i64) -> (r: String)
    ensures
        r@ =~= i64_repr(v as int),
{
    if v >= 0 {
        render_u128(v as u128)
    } else {
        let mag: u128 = (-(v as i128)) as u128;
        let mut r: String = String::new();
        r.append("-");
        let digits: String = render_u128(mag);
        r.append(digits.as_str());
        proof {
            reveal_strlit("-");
            assert(r@ =~= seq!['-'] + dec_repr(mag as nat));
        }
        r
    }
}

/// Value of a digit string when well formed and in this model's range, else zero.
pub open spec fn dec_or_zero(s: Seq<char>) -> nat {
    if s.len() >= 1 && all_digits(s) {
        dec_val(s)
    } else {
        0
    }
}

/// The digit values of a digit string.
pub open spec fn digits_of(s: Seq<char>) -> Seq<u8> {
    Seq::new(s.len(), |i: int| (s[i] as u32 - 48) as u8)
}

pub proof fn lemma_digits_bridge(s: Seq<char>)
    requires
        all_digits(s),
    ensures
        le9(digits_of(s)),
        val_msd(digits_of(s)) == dec_val(s),
    decreases s.len(),
{
    if s.len() > 0 {
        lemma_digits_bridge(s.drop_last());
        assert(digits_of(s).drop_last() =~= digits_of(s.drop_last()));
    }
}

/// Reads a string into digit values; `None` when any character is not a digit.
pub fn digits_of_str(s: &str) -> (r: Option<Vec<u8>>)
    ensures
        all_digits(s@) ==> r is Some && r.unwrap()@ =~= digits_of(s@),
        !all_digits(s@) ==> r is None,
{
    let n: usize = s.unicode_len();
    let mut ds: Vec<u8> = Vec::new();
    let mut i: usize = 0;
    while i < n
        invariant
            i <= n,
            n == s@.len(),
            all_digits(s@.take(i as int)),
            ds@ =~= digits_of(s@.take(i as int)),
        decreases n - i,
    {
        let c: char = s.get_char(i);
        let u: u32 = c as u32;
        if u < 48 || u > 57 {
            proof {
                assert(!is_digit(s@[i as int]));
            }
            return None;
        }
        ds.push((u - 48) as u8);
        proof {
            assert(digits_of(s@.take(i + 1)) =~= digits_of(s@.take(i as int)).push(
                (s@[i as int] as u32 - 48) as u8,
            ));
        }
        i = i + 1;
    }
    proof {
        assert(s@.take(n as int) =~= s@);
    }
    Some(ds)
}

/// Value of the last `i` digits (the whole sequence once `i` passes its length).
pub open spec fn tail_val(ds: Seq<u8>, i: int) -> nat {
    if i >= ds.len() {
        val_msd(ds)
    } else {
        val_msd(ds.skip(ds.len() - i))
    }
}

/// One more digit of tail adds that digit at the next power of ten.
pub proof fn lemma_tail_val_step(ds: Seq<u8>, ii: int)
    requires
        0 <= ii,
    ensures
        tail_val(ds, ii + 1) == (if ii < ds.len() {
            ds[ds.len() - 1 - ii] as nat
        } else {
            0
        }) * pow10(ii as nat) + tail_val(ds, ii),
{
    if ii < ds.len() {
        let d = ds[ds.len() - 1 - ii];
        assert(ds.skip(ds.len() - (ii + 1)) =~= seq![d] + ds.skip(ds.len() - ii));
        lemma_val_msd_cons(d, ds.skip(ds.len() - ii));
        if ii + 1 == ds.len() {
            assert(ds.skip(0) =~= ds);
        }
    }
}

/// Adds two digit-value sequences, school style, least significant first.
pub fn add_digits(a: &Vec<u8>, b: &Vec<u8>) -> (c: Vec<u8>)
    requires
        le9(a@),
        le9(b@),
    ensures
        le9(c@),
        val_msd(c@) == val_msd(a@) + val_msd(b@),
{
    let m: usize = if a.len() > b.len() {
        a.len()
    } else {
        b.len()
    };
    let mut out: Vec<u8> = Vec::new();
    let mut carry: u8 = 0;
    let mut i: usize = 0;
    proof {
        assert(val_msd(Seq::<u8>::empty()) == 0);
        assert(pow10(0) == 1);
        if a@.len() > 0 {
            assert(a@.skip(a@.len() - 0) =~= Seq::<u8>::empty());
        }
        if b@.len() > 0 {
            assert(b@.skip(b@.len() - 0) =~= Seq::<u8>::empty());
        }
    }
    while i < m
        invariant
            i <= m,
            m == if a@.len() > b@.len() {
                a@.len()
            } else {
                b@.len()
            },
            le9(a@),
            le9(b@),
            le9(out@),
            out@.len() == i,
            carry <= 1,
            tail_val(a@, i as int) + tail_val(b@, i as int) == carry * pow10(i as nat) + val_msd(
                out@,
            ),
        decreases m - i,
    {
        let da: u8 = if i < a.len() {
            a[a.len() - 1 - i]
        } else {
            0
        };
        let db: u8 = if i < b.len() {
            b[b.len() - 1 - i]
        } else {
            0
        };
        let sum: u8 = da + db + carry;
        let dlow: u8 = sum % 10;
        let ghost old_out = out@;
        let ghost old_carry = carry as nat;
        out.insert(0, dlow);
        carry = sum / 10;
        proof {
            let ii = i as int;
            lemma_tail_val_step(a@, ii);
            lemma_tail_val_step(b@, ii);
            assert(tail_val(a@, ii + 1) == da * pow10(ii as nat) + tail_val(a@, ii));
            assert(tail_val(b@, ii + 1) == db * pow10(ii as nat) + tail_val(b@, ii));
            assert(out@ =~= seq![dlow] + old_out);
            lemma_val_msd_cons(dlow, old_out);
            assert(sum == 10 * (sum / 10) + sum % 10);
            assert(pow10((ii + 1) as nat) == 10 * pow10(ii as nat));
            assert((da + db + old_carry) * pow10(ii as nat) == (sum / 10) * (10 * pow10(ii as nat))
                + (sum % 10) * pow10(ii as nat)) by (nonlinear_arith)
                requires
                    da + db + old_carry == sum,
                    sum == 10 * (sum / 10) + sum % 10,
            ;
            assert(tail_val(a@, ii + 1) + tail_val(b@, ii + 1) == (carry as nat) * pow10(
                (ii + 1) as nat,
            ) + val_msd(out@)) by (nonlinear_arith)
                requires
                    tail_val(a@, ii + 1) == da * pow10(ii as nat) + tail_val(a@, ii),
                    tail_val(b@, ii + 1) == db * pow10(ii as nat) + tail_val(b@, ii),
                    tail_val(a@, ii) + tail_val(b@, ii) == old_carry * pow10(ii as nat) + val_msd(
                        old_out,
                    ),
                    val_msd(out@) == dlow * pow10(ii as nat) + val_msd(old_out),
                    dlow == sum % 10,
                    carry == sum / 10,
                    da + db + old_carry == sum,
                    sum == 10 * (sum / 10) + sum % 10,
                    pow10((ii + 1) as nat) == 10 * pow10(ii as nat),
            ;
        }
        i = i + 1;
    }
    if carry > 0 {
        let ghost old_out = out@;
        out.insert(0, carry);
        proof {
            assert(out@ =~= seq![carry] + old_out);
            lemma_val_msd_cons(carry, old_out);
        }
    }
    proof {
        assert(tail_val(a@, m as int) == val_msd(a@)) by {
            if (m as int) < a@.len() {
                assert(a@.skip(a@.len() - m) =~= a@);
            }
        }
        assert(tail_val(b@, m as int) == val_msd(b@)) by {
            if (m as int) < b@.len() {
                assert(b@.skip(b@.len() - m) =~= b@);
            }
        }
    }
    out
}

/// Drops leading zeros, keeping at least one digit.
pub fn strip_zeros(ds: &mut Vec<u8>)
    requires
        old(ds)@.len() >= 1,
        le9(old(ds)@),
    ensures
        canonical(final(ds)@),
        val_msd(final(ds)@) == val_msd(old(ds)@),
{
    while ds.len() > 1 && ds[0] == 0
        invariant
            ds@.len() >= 1,
            le9(ds@),
            val_msd(ds@) == val_msd(old(ds)@),
        decreases ds@.len(),
    {
        let ghost before = ds@;
        ds.remove(0);
        proof {
            assert(before =~= seq![before[0]] + ds@);
            lemma_val_msd_cons(before[0], ds@);
        }
    }
}

pub proof fn lemma_pow10_mono(k1: nat, k2: nat)
    requires
        k1 <= k2,
    ensures
        pow10(k1) <= pow10(k2),
    decreases k2 - k1,
{
    if k1 < k2 {
        lemma_pow10_mono(k1, (k2 - 1) as nat);
        lemma_pow10_pos((k2 - 1) as nat);
    }
}

/// Digit values below ten keep the value below the next power of ten.
pub proof fn lemma_val_msd_upper(ds: Seq<u8>)
    requires
        le9(ds),
    ensures
        val_msd(ds) < pow10(ds.len()),
    decreases ds.len(),
{
    if ds.len() == 0 {
    } else {
        assert(le9(ds.drop_last()));
        lemma_val_msd_upper(ds.drop_last());
    }
}

/// A non-zero leading digit puts the value at or above the previous power of
/// ten.
pub proof fn lemma_val_msd_lower(ds: Seq<u8>)
    requires
        le9(ds),
        ds.len() >= 1,
        ds[0] >= 1,
    ensures
        val_msd(ds) >= pow10((ds.len() - 1) as nat),
{
    assert(ds =~= seq![ds[0]] + ds.skip(1));
    lemma_val_msd_cons(ds[0], ds.skip(1));
    lemma_pow10_pos(ds.skip(1).len() as nat);
    assert(ds[0] * pow10(ds.skip(1).len() as nat) >= pow10(ds.skip(1).len() as nat))
        by (nonlinear_arith)
        requires
            ds[0] >= 1,
            pow10(ds.skip(1).len() as nat) >= 1,
    ;
}

/// The value splits at any cut into prefix times a power of ten plus suffix.
pub proof fn lemma_val_msd_split(ds: Seq<u8>, k: int)
    requires
        0 <= k <= ds.len(),
    ensures
        val_msd(ds) == val_msd(ds.take(k)) * pow10((ds.len() - k) as nat) + val_msd(ds.skip(k)),
    decreases ds.len() - k,
{
    if k == ds.len() {
        assert(ds.take(k) =~= ds);
        assert(ds.skip(k) =~= Seq::<u8>::empty());
        assert(val_msd(Seq::<u8>::empty()) == 0);
        assert(pow10(0) == 1);
        assert(pow10((ds.len() - k) as nat) == 1);
        assert(val_msd(ds.take(k)) == val_msd(ds));
        assert(val_msd(ds.take(k)) * 1 == val_msd(ds.take(k))) by (nonlinear_arith);
        assert(val_msd(ds.take(k)) * pow10((ds.len() - k) as nat) == val_msd(ds));
    } else {
        lemma_val_msd_split(ds.drop_last(), k);
        assert(ds.drop_last().take(k) =~= ds.take(k));
        assert(ds.drop_last().skip(k) =~= ds.skip(k).drop_last());
        assert(val_msd(ds.skip(k)) == val_msd(ds.skip(k).drop_last()) * 10 + ds.skip(k).last());
        assert(ds.skip(k).last() == ds.last());
        let p = pow10((ds.len() - 1 - k) as nat);
        assert(pow10((ds.len() - k) as nat) == 10 * p);
        assert((val_msd(ds.take(k)) * p + val_msd(ds.skip(k).drop_last())) * 10 == val_msd(
            ds.take(k),
        ) * (10 * p) + val_msd(ds.skip(k).drop_last()) * 10) by (nonlinear_arith);
        assert(val_msd(ds) == val_msd(ds.drop_last()) * 10 + ds.last());
        assert(val_msd(ds.drop_last()) == val_msd(ds.take(k)) * p + val_msd(
            ds.skip(k).drop_last(),
        ));
        assert(val_msd(ds) == val_msd(ds.take(k)) * (10 * p) + (val_msd(ds.skip(k).drop_last())
            * 10 + ds.last())) by (nonlinear_arith)
            requires
                val_msd(ds) == (val_msd(ds.take(k)) * p + val_msd(ds.skip(k).drop_last())) * 10
                    + ds.last(),
        ;
    }
}

/// At equal lengths, the first differing digit decides the order.
pub proof fn lemma_val_msd_prefix_lt(a: Seq<u8>, b: Seq<u8>, i: int)
    requires
        le9(a),
        le9(b),
        a.len() == b.len(),
        0 <= i < a.len(),
        a.take(i) == b.take(i),
        a[i] < b[i],
    ensures
        val_msd(a) < val_msd(b),
{
    lemma_val_msd_split(a, i + 1);
    lemma_val_msd_split(b, i + 1);
    assert(a.take(i + 1).drop_last() =~= a.take(i));
    assert(b.take(i + 1).drop_last() =~= b.take(i));
    assert(a.take(i + 1).last() == a[i]);
    assert(b.take(i + 1).last() == b[i]);
    let va = val_msd(a.take(i + 1));
    let vb = val_msd(b.take(i + 1));
    assert(va + 1 <= vb);
    let p = pow10((a.len() - i - 1) as nat);
    assert(le9(a.skip(i + 1)));
    lemma_val_msd_upper(a.skip(i + 1));
    assert(val_msd(a.skip(i + 1)) < p);
    assert(va * p + p <= vb * p) by (nonlinear_arith)
        requires
            va + 1 <= vb,
            p >= 0,
    ;
    assert(val_msd(a) < va * p + p);
    assert(vb * p <= val_msd(b));
}

/// Compares two decimal strings by value: -1, 0 or 1 as the first is below,
/// at or above the second. A string that is not a well-formed run of digits
/// counts as zero, matching the conversion boundary's fallback policy.
pub fn dec_cmp_str(a: &str, b: &str) -> (r: i8)
    ensures
        r == -1i8 <==> dec_or_zero(a@) < dec_or_zero(b@),
        r == 0i8 <==> dec_or_zero(a@) == dec_or_zero(b@),
        r == 1i8 <==> dec_or_zero(a@) > dec_or_zero(b@),
{
    let da: Vec<u8> = match digits_of_str(a) {
        Option::Some(v) => {
            proof {
                lemma_digits_bridge(a@);
            }
            v
        },
        Option::None => Vec::new(),
    };
    let db: Vec<u8> = match digits_of_str(b) {
        Option::Some(v) => {
            proof {
                lemma_digits_bridge(b@);
            }
            v
        },
        Option::None => Vec::new(),
    };
    proof {
        assert(val_msd(Seq::<u8>::empty()) == 0);
        assert(dec_val(Seq::<char>::empty()) == 0);
        if all_digits(a@) && a@.len() == 0 {
            assert(digits_of(a@) =~= Seq::<u8>::empty());
        }
        if all_digits(b@) && b@.len() == 0 {
            assert(digits_of(b@) =~= Seq::<u8>::empty());
        }
    }
    let mut ca: Vec<u8> = da;
    let mut cb: Vec<u8> = db;
    if ca.len() == 0 {
        ca.push(0);
        proof {
            assert(ca@.drop_last() =~= Seq::<u8>::empty());
            assert(ca@.last() == 0);
        }
    }
    if cb.len() == 0 {
        cb.push(0);
        proof {
            assert(cb@.drop_last() =~= Seq::<u8>::empty());
            assert(cb@.last() == 0);
        }
    }
    strip_zeros(&mut ca);
    strip_zeros(&mut cb);
    proof {
        assert(val_msd(ca@) == dec_or_zero(a@));
        assert(val_msd(cb@) == dec_or_zero(b@));
    }
    if ca.len() < cb.len() {
        proof {
            lemma_val_msd_upper(ca@);
            lemma_val_msd_lower(cb@);
            lemma_pow10_mono(ca@.len() as nat, (cb@.len() - 1) as nat);
        }
        return -1;
    }
    if ca.len() > cb.len() {
        proof {
            lemma_val_msd_upper(cb@);
            lemma_val_msd_lower(ca@);
            lemma_pow10_mono(cb@.len() as nat, (ca@.len() - 1) as nat);
        }
        return 1;
    }
    let mut i: usize = 0;
    while i < ca.len()
        invariant
            i <= ca@.len(),
            ca@.len() == cb@.len(),
            le9(ca@),
            le9(cb@),
            ca@.take(i as int) == cb@.take(i as int),
            val_msd(ca@) == dec_or_zero(a@),
            val_msd(cb@) == dec_or_zero(b@),
        decreases ca@.len() - i,
    {
        if ca[i] < cb[i] {
            proof {
                lemma_val_msd_prefix_lt(ca@, cb@, i as int);
            }
            return -1;
        }
        if ca[i] > cb[i] {
            proof {
                lemma_val_msd_prefix_lt(cb@, ca@, i as int);
            }
            return 1;
        }
        proof {
            assert(ca@.take(i + 1) =~= ca@.take(i as int).push(ca@[i as int]));
            assert(cb@.take(i + 1) =~= cb@.take(i as int).push(cb@[i as int]));
        }
        i = i + 1;
    }
    proof {
        assert(ca@.take(ca@.len() as int) =~= ca@);
        assert(cb@.take(cb@.len() as int) =~= cb@);
        assert(ca@ == cb@);
    }
    0
}

/// Adds two decimal strings; a string that is not a well-formed run of digits
/// counts as zero, matching the conversion boundary's fallback policy.
pub fn dec_add_str(a: &str, b: &str) -> (r: String)
    ensures
        r@ =~= dec_repr(dec_or_zero(a@) + dec_or_zero(b@)),
{
    let da: Vec<u8> = match digits_of_str(a) {
        Option::Some(v) => {
            proof {
                lemma_digits_bridge(a@);
            }
            v
        },
        Option::None => Vec::new(),
    };
    let db: Vec<u8> = match digits_of_str(b) {
        Option::Some(v) => {
            proof {
                lemma_digits_bridge(b@);
            }
            v
        },
        Option::None => Vec::new(),
    };
    proof {
        assert(val_msd(Seq::<u8>::empty()) == 0);
        assert(dec_val(Seq::<char>::empty()) == 0);
        if all_digits(a@) && a@.len() == 0 {
            assert(digits_of(a@) =~= Seq::<u8>::empty());
        }
        if all_digits(b@) && b@.len() == 0 {
            assert(digits_of(b@) =~= Seq::<u8>::empty());
        }
    }
    let mut sum: Vec<u8> = add_digits(&da, &db);
    if sum.len() == 0 {
        sum.push(0);
        proof {
            assert(sum@.drop_last() =~= Seq::<u8>::empty());
            assert(sum@.last() == 0);
        }
    }
    strip_zeros(&mut sum);
    proof {
        lemma_canonical_repr(sum@);
    }
    string_of_digits(&sum)
}

} // verus!
