//! Verified text helpers: decimal formatting and parsing of `u64` values,
//! zero-padded fixed-width decimals, and lowercase hex encoding of bytes.

use vstd::prelude::*;
use vstd::string::StringExecFns;
use vstd::string::StrSliceExecFns;

verus! {

/// The decimal digit character for a value below ten.
pub open spec fn dec_digit(d: nat) -> char {
    if d == 0 { '0' }
    else if d == 1 { '1' }
    else if d == 2 { '2' }
    else if d == 3 { '3' }
    else if d == 4 { '4' }
    else if d == 5 { '5' }
    else if d == 6 { '6' }
    else if d == 7 { '7' }
    else if d == 8 { '8' }
    else { '9' }
}

/// The lowercase hex digit character for a value below sixteen.
pub open spec fn hex_digit(d: nat) -> char {
    if d < 10 { dec_digit(d) }
    else if d == 10 { 'a' }
    else if d == 11 { 'b' }
    else if d == 12 { 'c' }
    else if d == 13 { 'd' }
    else if d == 14 { 'e' }
    else { 'f' }
}

/// The decimal rendering of `n`, without leading zeros (a lone zero for 0).
pub open spec fn dec_of(n: nat) -> Seq<char>
    decreases n,
{
    if n < 10 {
        seq![dec_digit(n)]
    } else {
        dec_of(n / 10).push(dec_digit(n % 10))
    }
}

/// The decimal rendering of `n` padded with leading zeros to exactly `w` digits.
pub open spec fn pad_dec(n: nat, w: nat) -> Seq<char>
    decreases w,
{
    if w == 0 {
        Seq::empty()
    } else {
        pad_dec(n / 10, (w - 1) as nat).push(dec_digit(n % 10))
    }
}

/// Lowercase hex rendering of a byte sequence, two digits per byte.
pub open spec fn hex_of(bs: Seq<u8>) -> Seq<char>
    decreases bs.len(),
{
    if bs.len() == 0 {
        Seq::empty()
    } else {
        seq![hex_digit((bs[0] / 16) as nat), hex_digit((bs[0] % 16) as nat)]
            + hex_of(bs.drop_first())
    }
}

pub open spec fn is_dec_digit(c: char) -> bool {
    '0' <= c && c <= '9'
}

pub open spec fn dec_val(c: char) -> nat {
    ((c as u32) - ('0' as u32)) as nat
}

pub open spec fn all_dec_digits(s: Seq<char>) -> bool {
    forall|i: int| 0 <= i < s.len() ==> is_dec_digit(#[trigger] s[i])
}

/// The numeric value of a sequence of decimal digit characters.
pub open spec fn digits_val(s: Seq<char>) -> nat
    decreases s.len(),
{
    if s.len() == 0 {
        0
    } else {
        digits_val(s.drop_last()) * 10 + dec_val(s.last())
    }
}

pub open spec fn pow10(w: nat) -> nat
    decreases w,
{
    if w == 0 { 1 } else { 10 * pow10((w - 1) as nat) }
}

pub proof fn lemma_dec_val_digit(d: nat)
    requires
        d < 10,
    ensures
        dec_val(dec_digit(d)) == d,
        is_dec_digit(dec_digit(d)),
{
}

pub proof fn lemma_dec_of_digits(n: nat)
    ensures
        all_dec_digits(dec_of(n)),
        dec_of(n).len() >= 1,
        digits_val(dec_of(n)) == n,
    decreases n,
{
    lemma_dec_val_digit(n % 10);
    if n < 10 {
        lemma_dec_val_digit(n);
        let whole = dec_of(n);
        assert(whole == seq![dec_digit(n)]);
        assert(whole.drop_last() =~= Seq::<char>::empty());
        assert(whole.last() == dec_digit(n));
        assert(digits_val(whole.drop_last()) == 0);
        assert(digits_val(whole) == 0 * 10 + dec_val(dec_digit(n)));
    } else {
        lemma_dec_of_digits(n / 10);
        let prefix = dec_of(n / 10);
        let whole = dec_of(n);
        assert(whole == prefix.push(dec_digit(n % 10)));
        assert(whole.drop_last() =~= prefix);
        assert(whole.last() == dec_digit(n % 10));
        assert forall|i: int| 0 <= i < whole.len() implies is_dec_digit(#[trigger] whole[i]) by {
            if i < prefix.len() {
                assert(whole[i] == prefix[i]);
            }
        }
        assert(digits_val(whole) == digits_val(prefix) * 10 + dec_val(dec_digit(n % 10)));
        assert(digits_val(whole) == (n / 10) * 10 + n % 10);
        assert((n / 10) * 10 + n % 10 == n) by (nonlinear_arith);
    }
}

pub proof fn lemma_pad_dec_digits(n: nat, w: nat)
    ensures
        all_dec_digits(pad_dec(n, w)),
        pad_dec(n, w).len() == w,
        n < pow10(w) ==> digits_val(pad_dec(n, w)) == n,
    decreases w,
{
    if w > 0 {
        lemma_dec_val_digit(n % 10);
        lemma_pad_dec_digits(n / 10, (w - 1) as nat);
        let prefix = pad_dec(n / 10, (w - 1) as nat);
        let whole = pad_dec(n, w);
        assert(whole =~= prefix.push(dec_digit(n % 10)));
        assert(whole.drop_last() =~= prefix);
        assert forall|i: int| 0 <= i < whole.len() implies is_dec_digit(#[trigger] whole[i]) by {
            if i < prefix.len() {
                assert(whole[i] == prefix[i]);
            }
        }
        if n < pow10(w) {
            lemma_pow10_pos((w - 1) as nat);
            assert(n / 10 < pow10((w - 1) as nat)) by (nonlinear_arith)
                requires n < 10 * pow10((w - 1) as nat), pow10((w - 1) as nat) >= 1;
            assert(digits_val(whole) == (n / 10) * 10 + n % 10);
            assert((n / 10) * 10 + n % 10 == n) by (nonlinear_arith);
        }
    }
}

pub proof fn lemma_pow10_pos(w: nat)
    ensures
        pow10(w) >= 1,
    decreases w,
{
    if w > 0 {
        lemma_pow10_pos((w - 1) as nat);
    }
}

/// A digit string's value is below ten to the power of its length.
pub proof fn lemma_digits_val_bound(s: Seq<char>)
    requires
        all_dec_digits(s),
    ensures
        digits_val(s) < pow10(s.len()),
    decreases s.len(),
{
    if s.len() == 0 {
    } else {
        let prefix = s.drop_last();
        assert(all_dec_digits(prefix)) by {
            assert forall|i: int| 0 <= i < prefix.len() implies is_dec_digit(#[trigger] prefix[i]) by {
                assert(prefix[i] == s[i]);
            }
        }
        lemma_digits_val_bound(prefix);
        assert(is_dec_digit(s.last()));
        assert(dec_val(s.last()) <= 9);
        assert(digits_val(prefix) * 10 <= (pow10(prefix.len()) - 1) * 10) by (nonlinear_arith)
            requires digits_val(prefix) <= pow10(prefix.len()) - 1;
        assert(pow10(s.len()) == 10 * pow10(prefix.len()));
    }
}

/// The rendering of a value below ten to the power `w` has at most `w` digits.
pub proof fn lemma_dec_of_len(n: nat, w: nat)
    requires
        n < pow10(w),
        w >= 1,
    ensures
        dec_of(n).len() <= w,
    decreases w,
{
    if n < 10 {
    } else {
        lemma_pow10_pos((w - 1) as nat);
        assert(n / 10 < pow10((w - 1) as nat)) by (nonlinear_arith)
            requires n < 10 * pow10((w - 1) as nat), pow10((w - 1) as nat) >= 1;
        lemma_dec_of_len(n / 10, (w - 1) as nat);
    }
}

/// A `u64` value renders to at most twenty digits.
pub proof fn lemma_dec_of_u64_len(n: u64)
    ensures
        dec_of(n as nat).len() <= 20,
{
    assert(pow10(20) == 0x56bc75e2d63100000) by {
        reveal_with_fuel(pow10, 21);
    }
    lemma_dec_of_len(n as nat, 20);
}

/// The value of every prefix of a digit string is at most the whole string's value.
pub proof fn lemma_digits_val_prefix_le(s: Seq<char>, i: int)
    requires
        0 <= i <= s.len(),
    ensures
        digits_val(s.take(i)) <= digits_val(s),
    decreases s.len() - i,
{
    if i < s.len() {
        lemma_digits_val_prefix_le(s, i + 1);
        let shorter = s.take(i);
        let longer = s.take(i + 1);
        assert(longer.drop_last() =~= shorter);
        assert(digits_val(longer) == digits_val(shorter) * 10 + dec_val(longer.last()));
        assert(digits_val(shorter) * 10 >= digits_val(shorter)) by (nonlinear_arith);
    } else {
        assert(s.take(i) =~= s);
    }
}

/// One decimal digit as a borrowed string slice.
fn dec_digit_str(d: u8) -> (r: &'static str)
    requires
        d < 10,
    ensures
        r@ == seq![dec_digit(d as nat)],
{
    match d {
        0 => { proof { reveal_strlit("0"); assert("0"@ =~= seq!['0']); } "0" },
        1 => { proof { reveal_strlit("1"); assert("1"@ =~= seq!['1']); } "1" },
        2 => { proof { reveal_strlit("2"); assert("2"@ =~= seq!['2']); } "2" },
        3 => { proof { reveal_strlit("3"); assert("3"@ =~= seq!['3']); } "3" },
        4 => { proof { reveal_strlit("4"); assert("4"@ =~= seq!['4']); } "4" },
        5 => { proof { reveal_strlit("5"); assert("5"@ =~= seq!['5']); } "5" },
        6 => { proof { reveal_strlit("6"); assert("6"@ =~= seq!['6']); } "6" },
        7 => { proof { reveal_strlit("7"); assert("7"@ =~= seq!['7']); } "7" },
        8 => { proof { reveal_strlit("8"); assert("8"@ =~= seq!['8']); } "8" },
        _ => { proof { reveal_strlit("9"); assert("9"@ =~= seq!['9']); } "9" },
    }
}

/// One lowercase hex digit as a borrowed string slice.
fn hex_digit_str(d: u8) -> (r: &'static str)
    requires
        d < 16,
    ensures
        r@ == seq![hex_digit(d as nat)],
{
    if d < 10 {
        dec_digit_str(d)
    } else {
        match d {
            10 => { proof { reveal_strlit("a"); assert("a"@ =~= seq!['a']); } "a" },
            11 => { proof { reveal_strlit("b"); assert("b"@ =~= seq!['b']); } "b" },
            12 => { proof { reveal_strlit("c"); assert("c"@ =~= seq!['c']); } "c" },
            13 => { proof { reveal_strlit("d"); assert("d"@ =~= seq!['d']); } "d" },
            14 => { proof { reveal_strlit("e"); assert("e"@ =~= seq!['e']); } "e" },
            _ => { proof { reveal_strlit("f"); assert("f"@ =~= seq!['f']); } "f" },
        }
    }
}

/// Appends the decimal rendering of `n` to `s`.
pub fn push_u64_decimal(s: &mut String, n: u64)
    ensures
        final(s)@ == old(s)@ + dec_of(n as nat),
    decreases n,
{
    if n < 10 {
        s.append(dec_digit_str(n as u8));
    } else {
        push_u64_decimal(s, n / 10);
        s.append(dec_digit_str((n % 10) as u8));
        proof {
            assert(s@ =~= old(s)@ + dec_of(n as nat));
        }
    }
}

/// The decimal rendering of `n` as an owned string.
pub fn u64_to_string(n: u64) -> (r: String)
    ensures
        r@ == dec_of(n as nat),
{
    let mut s = String::new();
    push_u64_decimal(&mut s, n);
    proof {
        assert(s@ =~= dec_of(n as nat));
    }
    s
}

/// Appends the decimal rendering of `n`, zero-padded to `w` digits, to `s`.
pub fn push_pad_decimal(s: &mut String, n: u64, w: u8)
    ensures
        final(s)@ == old(s)@ + pad_dec(n as nat, w as nat),
    decreases w,
{
    if w > 0 {
        push_pad_decimal(s, n / 10, w - 1);
        s.append(dec_digit_str((n % 10) as u8));
        proof {
            assert(s@ =~= old(s)@ + pad_dec(n as nat, w as nat));
        }
    } else {
        proof {
            assert(s@ =~= old(s)@ + pad_dec(n as nat, 0));
        }
    }
}

/// Lowercase hex rendering of a byte vector.
pub fn hex_to_string(bytes: &Vec<u8>) -> (r: String)
    ensures
        r@ == hex_of(bytes@),
{
    let mut s = String::new();
    let mut i: usize = 0;
    while i < bytes.len()
        invariant
            i <= bytes@.len(),
            s@ == hex_of(bytes@.take(i as int)),
        decreases bytes@.len() - i,
    {
        let b = bytes[i];
        s.append(hex_digit_str(b / 16));
        s.append(hex_digit_str(b % 16));
        proof {
            lemma_hex_of_snoc(bytes@.take(i as int), bytes@[i as int]);
            assert(bytes@.take((i as int) + 1) =~= bytes@.take(i as int).push(bytes@[i as int]));
            assert(s@ =~= hex_of(bytes@.take((i as int) + 1)));
        }
        i = i + 1;
    }
    proof {
        assert(bytes@.take(bytes@.len() as int) =~= bytes@);
    }
    s
}

/// Hex rendering distributes over appending one byte at the end.
pub proof fn lemma_hex_of_snoc(bs: Seq<u8>, b: u8)
    ensures
        hex_of(bs.push(b)) == hex_of(bs)
            + seq![hex_digit((b / 16) as nat), hex_digit((b % 16) as nat)],
    decreases bs.len(),
{
    let two = seq![hex_digit((b / 16) as nat), hex_digit((b % 16) as nat)];
    if bs.len() == 0 {
        assert(bs.push(b).drop_first() =~= Seq::<u8>::empty());
        assert(bs.push(b)[0] == b);
        assert(bs.push(b).len() == 1);
        assert(hex_of(bs.push(b))
            == seq![hex_digit((bs.push(b)[0] / 16) as nat), hex_digit((bs.push(b)[0] % 16) as nat)]
                + hex_of(bs.push(b).drop_first()));
        assert(hex_of(Seq::<u8>::empty()) == Seq::<char>::empty());
        assert(hex_of(bs.push(b)) =~= hex_of(bs) + two);
    } else {
        lemma_hex_of_snoc(bs.drop_first(), b);
        assert(bs.push(b).drop_first() =~= bs.drop_first().push(b));
        assert(bs.push(b)[0] == bs[0]);
        assert(bs.push(b).len() == bs.len() + 1);
        let head = seq![hex_digit((bs[0] / 16) as nat), hex_digit((bs[0] % 16) as nat)];
        assert(hex_of(bs.push(b)) == head + hex_of(bs.drop_first().push(b)));
        assert(hex_of(bs.drop_first().push(b)) == hex_of(bs.drop_first()) + two);
        assert(hex_of(bs) == head + hex_of(bs.drop_first()));
        assert(head + (hex_of(bs.drop_first()) + two) =~= (head + hex_of(bs.drop_first())) + two);
    }
}

/// Parses a nonempty all-digit string as a `u64`.
///
/// Returns `Some` exactly when the string is nonempty, holds decimal digits
/// only, and its value fits in a `u64`.
pub fn parse_u64_decimal(s: &str) -> (r: Option<u64>)
    ensures
        r matches Some(n) ==> s@.len() > 0 && all_dec_digits(s@)
            && digits_val(s@) == n as nat,
        r is None ==> !(s@.len() > 0 && all_dec_digits(s@)
            && digits_val(s@) <= u64::MAX as nat),
{
    let len = s.unicode_len();
    if len == 0 {
        return None;
    }
    let mut acc: u128 = 0;
    let mut i: usize = 0;
    while i < len
        invariant
            0 < len == s@.len(),
            i <= len,
            all_dec_digits(s@.take(i as int)),
            acc as nat == digits_val(s@.take(i as int)),
            acc <= u64::MAX,
        decreases len - i,
    {
        let c = s.get_char(i);
        let u = c as u32;
        if u < 48 || u > 57 {
            proof {
                assert(!is_dec_digit(s@[i as int]));
            }
            return None;
        }
        let d: u128 = (u - 48) as u128;
        acc = acc * 10 + d;
        proof {
            assert(s@.take((i as int) + 1).drop_last() =~= s@.take(i as int));
            assert(s@.take((i as int) + 1).last() == s@[i as int]);
        }
        i = i + 1;
        if acc > 0xffff_ffff_ffff_ffff {
            proof {
                lemma_digits_val_prefix_le(s@, i as int);
            }
            return None;
        }
    }
    proof {
        assert(s@.take(len as int) =~= s@);
    }
    Some(acc as u64)
}

/// A string vector's deep view is its elements' views, position-wise.
pub proof fn lemma_string_vec_deep_view(v: Vec<String>)
    ensures
        v.deep_view().len() == v@.len(),
        forall|j: int| 0 <= j < v@.len() ==> #[trigger] v.deep_view()[j] == v@[j]@,
{
}

/// Whether two string slices hold the same character sequence.
pub fn str_eq(a: &str, b: &str) -> (r: bool)
    ensures
        r == (a@ == b@),
{
    let len = a.unicode_len();
    if len != b.unicode_len() {
        return false;
    }
    let mut i: usize = 0;
    while i < len
        invariant
            len == a@.len(),
            len == b@.len(),
            i <= len,
            forall|j: int| 0 <= j < i ==> a@[j] == b@[j],
        decreases len - i,
    {
        if a.get_char(i) != b.get_char(i) {
            return false;
        }
        i = i + 1;
    }
    proof {
        assert(a@ =~= b@);
    }
    true
}

} // verus!
