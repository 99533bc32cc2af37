//! Verified text codecs for the numbers of the wire format: signed base-10
//! integers (quantities, priorities) and 128-bit identifiers written as 32
//! hexadecimal digits.

use vstd::prelude::*;
use crate::chars::is_ws;

verus! {

pub open spec fn is_digit(c: char) -> bool {
    c == '0' || c == '1' || c == '2' || c == '3' || c == '4' || c == '5' || c == '6' || c == '7'
        || c == '8' || c == '9'
}

/// The value of a decimal digit; other characters count as 0 so that the
/// function stays total.
pub open spec fn digit_val(c: char) -> int {
    match c {
        '0' => 0,
        '1' => 1,
        '2' => 2,
        '3' => 3,
        '4' => 4,
        '5' => 5,
        '6' => 6,
        '7' => 7,
        '8' => 8,
        '9' => 9,
        _ => 0,
    }
}

pub open spec fn digit_char(d: int) -> char {
    if d == 1 {
        '1'
    } else if d == 2 {
        '2'
    } else if d == 3 {
        '3'
    } else if d == 4 {
        '4'
    } else if d == 5 {
        '5'
    } else if d == 6 {
        '6'
    } else if d == 7 {
        '7'
    } else if d == 8 {
        '8'
    } else if d == 9 {
        '9'
    } else {
        '0'
    }
}

pub open spec fn is_digits(s: Seq<char>) -> bool {
    s.len() > 0 && forall|i: int| 0 <= i < s.len() ==> is_digit(#[trigger] s[i])
}

/// Base-10 value of a digit run.
pub open spec fn digits_val(s: Seq<char>) -> int
    decreases s.len(),
{
    if s.len() == 0 {
        0
    } else {
        digits_val(s.take(s.len() - 1)) * 10 + digit_val(s[s.len() - 1])
    }
}

/// The mathematical reading of a signed decimal text: an optional `-` or `+`
/// sign followed by at least one digit and nothing else.
pub open spec fn parse_int(s: Seq<char>) -> Option<int> {
    if s.len() > 0 && s[0] == '-' {
        if is_digits(s.skip(1)) {
            Some(-digits_val(s.skip(1)))
        } else {
            None
        }
    } else if s.len() > 0 && s[0] == '+' {
        if is_digits(s.skip(1)) {
            Some(digits_val(s.skip(1)))
        } else {
            None
        }
    } else {
        if is_digits(s) {
            Some(digits_val(s))
        } else {
            None
        }
    }
}

/// A signed decimal text read as an `i32`; values outside the `i32` range do
/// not parse.
pub open spec fn parse_i32(s: Seq<char>) -> Option<i32> {
    match parse_int(s) {
        None => None,
        Some(v) => if -0x8000_0000 <= v <= 0x7fff_ffff {
            Some(v as i32)
        } else {
            None
        },
    }
}

/// Canonical decimal digits of a non-negative number, no leading zeros.
pub open spec fn dec_nat(n: int) -> Seq<char>
    recommends
        n >= 0,
    decreases n,
{
    if n < 10 {
        seq![digit_char(n)]
    } else {
        dec_nat(n / 10).push(digit_char(n % 10))
    }
}

/// Canonical decimal text of a signed number.
pub open spec fn dec_int(n: int) -> Seq<char> {
    if n < 0 {
        seq!['-'] + dec_nat(-n)
    } else {
        dec_nat(n)
    }
}

pub proof fn lemma_digits_val_nonneg(s: Seq<char>)
    ensures
        digits_val(s) >= 0,
    decreases s.len(),
{
    if s.len() > 0 {
        lemma_digits_val_nonneg(s.take(s.len() - 1));
    }
}

/// Reading more digits can only grow the value.
pub proof fn lemma_digits_val_mono(s: Seq<char>, k: int)
    requires
        0 <= k <= s.len(),
    ensures
        digits_val(s) >= digits_val(s.take(k)),
    decreases s.len() - k,
{
    if k == s.len() {
        assert(s.take(k) =~= s);
    } else {
        let t = s.take(k + 1);
        assert(t.take(t.len() - 1) =~= s.take(k));
        lemma_digits_val_nonneg(s.take(k));
        assert(digits_val(t) >= digits_val(s.take(k)));
        lemma_digits_val_mono(s, k + 1);
    }
}

/// The canonical decimal digits of `n` read back as `n`.
pub proof fn lemma_dec_nat(n: int)
    requires
        n >= 0,
    ensures
        is_digits(dec_nat(n)),
        digits_val(dec_nat(n)) == n,
        is_digit(dec_nat(n)[0]),
    decreases n,
{
    if n < 10 {
        let s = dec_nat(n);
        assert(s.len() == 1);
        assert(s[0] == digit_char(n));
        assert(s.take(s.len() - 1) =~= Seq::<char>::empty());
        assert(digits_val(Seq::<char>::empty()) == 0);
        assert(digits_val(s) == digits_val(s.take(s.len() - 1)) * 10 + digit_val(s[0]));
        assert(digit_val(digit_char(n)) == n);
    } else {
        lemma_dec_nat(n / 10);
        let s = dec_nat(n);
        assert(s.len() == dec_nat(n / 10).len() + 1);
        assert(s.take(s.len() - 1) =~= dec_nat(n / 10));
        assert(s[s.len() - 1] == digit_char(n % 10));
        assert(digit_val(digit_char(n % 10)) == n % 10);
        assert(digits_val(s) == (n / 10) * 10 + n % 10);
        assert((n / 10) * 10 + n % 10 == n) by {
            vstd::arithmetic::div_mod::lemma_fundamental_div_mod(n, 10);
        }
        assert(forall|i: int|
            0 <= i < s.len() ==> is_digit(#[trigger] s[i]) == is_digit(
                if i < s.len() - 1 {
                    dec_nat(n / 10)[i]
                } else {
                    digit_char(n % 10)
                },
            ));
    }
}

/// The canonical signed decimal text of `n` parses back to `n`, and all of
/// its characters are digits or a leading minus sign.
pub proof fn lemma_dec_int(n: int)
    ensures
        parse_int(dec_int(n)) == Some(n),
        dec_int(n).len() > 0,
        forall|i: int|
            0 <= i < dec_int(n).len() ==> (is_digit(#[trigger] dec_int(n)[i]) || dec_int(n)[i]
                == '-'),
        is_digit(dec_int(n)[0]) || dec_int(n)[0] == '-',
{
    if n < 0 {
        lemma_dec_nat(-n);
        let s = dec_int(n);
        assert(s[0] == '-');
        assert(s.skip(1) =~= dec_nat(-n));
        assert(forall|i: int| 1 <= i < s.len() ==> s[i] == dec_nat(-n)[i - 1]);
    } else {
        lemma_dec_nat(n);
        let s = dec_int(n);
        assert(s[0] != '-' && s[0] != '+');
    }
}

pub open spec fn is_hex(c: char) -> bool {
    is_digit(c) || c == 'a' || c == 'b' || c == 'c' || c == 'd' || c == 'e' || c == 'f' || c == 'A'
        || c == 'B' || c == 'C' || c == 'D' || c == 'E' || c == 'F'
}

/// The value of a hexadecimal digit; other characters count as 0.
pub open spec fn hex_val(c: char) -> int {
    match c {
        'a' => 10,
        'b' => 11,
        'c' => 12,
        'd' => 13,
        'e' => 14,
        'f' => 15,
        'A' => 10,
        'B' => 11,
        'C' => 12,
        'D' => 13,
        'E' => 14,
        'F' => 15,
        _ => digit_val(c),
    }
}

pub open spec fn hex_char(d: int) -> char {
    if d == 10 {
        'a'
    } else if d == 11 {
        'b'
    } else if d == 12 {
        'c'
    } else if d == 13 {
        'd'
    } else if d == 14 {
        'e'
    } else if d == 15 {
        'f'
    } else {
        digit_char(d)
    }
}

pub open spec fn is_hex_seq(s: Seq<char>) -> bool {
    forall|i: int| 0 <= i < s.len() ==> is_hex(#[trigger] s[i])
}

/// Base-16 value of a hexadecimal digit run.
pub open spec fn hex_seq_val(s: Seq<char>) -> int
    decreases s.len(),
{
    if s.len() == 0 {
        0
    } else {
        hex_seq_val(s.take(s.len() - 1)) * 16 + hex_val(s[s.len() - 1])
    }
}

pub open spec fn pow16(n: nat) -> int
    decreases n,
{
    if n == 0 {
        1
    } else {
        16 * pow16((n - 1) as nat)
    }
}

/// The low `n` hexadecimal digits of `v`, most significant first.
pub open spec fn hex_digits(v: int, n: nat) -> Seq<char>
    decreases n,
{
    if n == 0 {
        Seq::empty()
    } else {
        hex_digits(v / 16, (n - 1) as nat).push(hex_char(v % 16))
    }
}

/// A 128-bit identifier written as exactly 32 lowercase hexadecimal digits.
pub open spec fn hex32(v: u128) -> Seq<char> {
    hex_digits(v as int, 32)
}

/// The text reading of a 128-bit identifier: exactly 32 hexadecimal digits,
/// upper or lower case.
pub open spec fn parse_hex32(s: Seq<char>) -> Option<u128> {
    if s.len() == 32 && is_hex_seq(s) {
        Some(hex_seq_val(s) as u128)
    } else {
        None
    }
}

pub proof fn lemma_pow16_pos(n: nat)
    ensures
        pow16(n) >= 1,
    decreases n,
{
    if n > 0 {
        lemma_pow16_pos((n - 1) as nat);
    }
}

pub proof fn lemma_pow16_128()
    ensures
        pow16(32) == 0x1_0000_0000_0000_0000_0000_0000_0000_0000,
{
    assert(pow16(32) == 0x1_0000_0000_0000_0000_0000_0000_0000_0000) by {
        reveal_with_fuel(pow16, 33);
    }
}

pub proof fn lemma_hex_seq_val_bound(s: Seq<char>)
    ensures
        0 <= hex_seq_val(s) < pow16(s.len() as nat),
    decreases s.len(),
{
    if s.len() == 0 {
    } else {
        lemma_hex_seq_val_bound(s.take(s.len() - 1));
        assert(pow16(s.len() as nat) == 16 * pow16((s.len() - 1) as nat));
    }
}

/// The `n` hexadecimal digits of a value below `16^n` read back as that
/// value; all of the digits are lowercase hexadecimal characters.
pub proof fn lemma_hex_digits(v: int, n: nat)
    requires
        0 <= v < pow16(n),
    ensures
        hex_digits(v, n).len() == n,
        is_hex_seq(hex_digits(v, n)),
        hex_seq_val(hex_digits(v, n)) == v,
        forall|i: int|
            0 <= i < n ==> (is_digit(#[trigger] hex_digits(v, n)[i]) || hex_digits(v, n)[i] == 'a'
                || hex_digits(v, n)[i] == 'b' || hex_digits(v, n)[i] == 'c' || hex_digits(v, n)[i]
                == 'd' || hex_digits(v, n)[i] == 'e' || hex_digits(v, n)[i] == 'f'),
    decreases n,
{
    if n == 0 {
    } else {
        assert(pow16(n) == 16 * pow16((n - 1) as nat));
        lemma_pow16_pos((n - 1) as nat);
        lemma_hex_digits(v / 16, (n - 1) as nat);
        let s = hex_digits(v, n);
        assert(s.take(s.len() - 1) =~= hex_digits(v / 16, (n - 1) as nat));
        assert(s[s.len() - 1] == hex_char(v % 16));
        assert(hex_seq_val(s) == (v / 16) * 16 + v % 16);
    }
}

/// Hexadecimal digits, decimal digits, and the minus sign are neither blank
/// nor a segment separator.
pub proof fn lemma_num_chars_plain(c: char)
    ensures
        is_hex(c) ==> !is_ws(c) && c != ';',
        is_digit(c) ==> !is_ws(c) && c != ';',
        c == '-' ==> !is_ws(c) && c != ';',
{
}

pub proof fn lemma_pow16_mono(a: nat, b: nat)
    requires
        a <= b,
    ensures
        pow16(a) <= pow16(b),
    decreases b,
{
    if a < b {
        lemma_pow16_mono(a, (b - 1) as nat);
        lemma_pow16_pos((b - 1) as nat);
    }
}

fn digit_char_of(d: u32) -> (c: char)
    requires
        d < 10,
    ensures
        c == digit_char(d as int),
{
    match d {
        0 => '0',
        1 => '1',
        2 => '2',
        3 => '3',
        4 => '4',
        5 => '5',
        6 => '6',
        7 => '7',
        8 => '8',
        _ => '9',
    }
}

fn hex_char_of(d: u8) -> (c: char)
    requires
        d < 16,
    ensures
        c == hex_char(d as int),
{
    match d {
        0 => '0',
        1 => '1',
        2 => '2',
        3 => '3',
        4 => '4',
        5 => '5',
        6 => '6',
        7 => '7',
        8 => '8',
        9 => '9',
        10 => 'a',
        11 => 'b',
        12 => 'c',
        13 => 'd',
        14 => 'e',
        _ => 'f',
    }
}

/// The value of a decimal digit character, or 10 for any other character.
fn digit_val_of(c: char) -> (d: u64)
    ensures
        is_digit(c) ==> d == digit_val(c),
        !is_digit(c) ==> d == 10,
{
    match c {
        '0' => 0,
        '1' => 1,
        '2' => 2,
        '3' => 3,
        '4' => 4,
        '5' => 5,
        '6' => 6,
        '7' => 7,
        '8' => 8,
        '9' => 9,
        _ => 10,
    }
}

/// The value of a hexadecimal digit character, or 16 for any other character.
fn hex_val_of(c: char) -> (d: u8)
    ensures
        is_hex(c) ==> d == hex_val(c),
        !is_hex(c) ==> d == 16,
{
    match c {
        '0' => 0,
        '1' => 1,
        '2' => 2,
        '3' => 3,
        '4' => 4,
        '5' => 5,
        '6' => 6,
        '7' => 7,
        '8' => 8,
        '9' => 9,
        'a' => 10,
        'b' => 11,
        'c' => 12,
        'd' => 13,
        'e' => 14,
        'f' => 15,
        'A' => 10,
        'B' => 11,
        'C' => 12,
        'D' => 13,
        'E' => 14,
        'F' => 15,
        _ => 16,
    }
}

fn push_dec_u32(out: &mut Vec<char>, n: u32)
    ensures
        final(out)@ == old(out)@ + dec_nat(n as int),
    decreases n,
{
    if n < 10 {
        out.push(digit_char_of(n));
        assert(out@ =~= old(out)@ + dec_nat(n as int));
    } else {
        push_dec_u32(out, n / 10);
        out.push(digit_char_of(n % 10));
        assert(out@ =~= old(out)@ + dec_nat(n as int));
    }
}

/// Appends the canonical decimal text of `n` to `out`.
pub fn push_dec_i32(out: &mut Vec<char>, n: i32)
    ensures
        final(out)@ == old(out)@ + dec_int(n as int),
{
    if n >= 0 {
        push_dec_u32(out, n as u32);
    } else {
        out.push('-');
        let m = -(n as i64);
        assert(0 < m <= 0x8000_0000);
        push_dec_u32(out, m as u32);
        assert(out@ =~= old(out)@ + dec_int(n as int));
    }
}

fn push_hex_digits(out: &mut Vec<char>, v: u128, n: u32)
    ensures
        final(out)@ == old(out)@ + hex_digits(v as int, n as nat),
    decreases n,
{
    if n == 0 {
        assert(out@ =~= old(out)@ + hex_digits(v as int, 0));
    } else {
        push_hex_digits(out, v / 16, n - 1);
        out.push(hex_char_of((v % 16) as u8));
        assert(out@ =~= old(out)@ + hex_digits(v as int, n as nat));
    }
}

/// Appends the 32 hexadecimal digits of a 128-bit identifier to `out`.
pub fn push_hex32(out: &mut Vec<char>, v: u128)
    ensures
        final(out)@ == old(out)@ + hex32(v),
{
    push_hex_digits(out, v, 32);
}


fn push_dec_u64(out: &mut Vec<char>, n: u64)
    ensures
        final(out)@ == old(out)@ + dec_nat(n as int),
    decreases n,
{
    if n < 10 {
        out.push(digit_char_of(n as u32));
        assert(out@ =~= old(out)@ + dec_nat(n as int));
    } else {
        push_dec_u64(out, n / 10);
        out.push(digit_char_of((n % 10) as u32));
        assert(out@ =~= old(out)@ + dec_nat(n as int));
    }
}

/// Appends the canonical decimal text of `n` to `out`.
pub fn push_dec_usize(out: &mut Vec<char>, n: usize)
    ensures
        final(out)@ == old(out)@ + dec_nat(n as int),
{
    push_dec_u64(out, n as u64);
}

/// Reads a segment as a signed decimal `i32`, exactly as `parse_i32` does.
pub fn parse_i32_chars(v: &Vec<char>) -> (r: Option<i32>)
    ensures
        r == parse_i32(v@),
{
    let ghost s = v@;
    let n = v.len();
    let mut start: usize = 0;
    let mut neg = false;
    if n > 0 && v[0] == '-' {
        neg = true;
        start = 1;
    } else if n > 0 && v[0] == '+' {
        start = 1;
    }
    let ghost ds = s.skip(start as int);
    proof {
        assert(s.skip(0) =~= s);
        assert(ds.len() == n - start);
    }
    if start == n {
        return None;
    }
    let mut acc: u64 = 0;
    let mut i = start;
    while i < n
        invariant
            start <= i <= n,
            n == v.len(),
            s == v@,
            ds == s.skip(start as int),
            neg ==> start == 1 && s.len() > 0 && s[0] == '-',
            !neg && start == 1 ==> s.len() > 0 && s[0] == '+',
            start == 0 ==> !neg && (s.len() == 0 || (s[0] != '-' && s[0] != '+')),
            start <= 1,
            acc <= 0xffff_ffff,
            forall|k: int| start <= k < i ==> is_digit(#[trigger] s[k]),
            acc == digits_val(s.subrange(start as int, i as int)),
        decreases n - i,
    {
        let c = v[i];
        let d = digit_val_of(c);
        if d == 10 {
            proof {
                assert(s.skip(0) =~= s);
                assert(ds.len() == n - start);
                assert(ds[i - start] == s[i as int]);
            }
            return None;
        }
        proof {
            let p1 = s.subrange(start as int, i + 1);
            assert(p1.take(p1.len() - 1) =~= s.subrange(start as int, i as int));
            assert(p1[p1.len() - 1] == s[i as int]);
            lemma_digits_val_nonneg(s.subrange(start as int, i as int));
        }
        acc = acc * 10 + d;
        i = i + 1;
        if acc > 0xffff_ffff {
            proof {
                assert(s.skip(0) =~= s);
                assert(ds.take(i - start) =~= s.subrange(start as int, i as int));
                lemma_digits_val_mono(ds, i - start);
            }
            return None;
        }
    }
    proof {
        assert(ds =~= s.subrange(start as int, n as int));
        assert forall|k: int| 0 <= k < ds.len() implies is_digit(#[trigger] ds[k]) by {
            assert(ds[k] == s[start + k]);
        }
        assert(is_digits(ds));
    }
    if neg {
        if acc > 0x8000_0000 {
            return None;
        }
        let m = -(acc as i64);
        Some(m as i32)
    } else {
        if acc > 0x7fff_ffff {
            return None;
        }
        Some(acc as i32)
    }
}

/// Reads a segment as a 128-bit identifier, exactly as `parse_hex32` does.
pub fn parse_hex32_chars(v: &Vec<char>) -> (r: Option<u128>)
    ensures
        r == parse_hex32(v@),
{
    let ghost s = v@;
    if v.len() != 32 {
        return None;
    }
    let mut acc: u128 = 0;
    let mut i: usize = 0;
    while i < 32
        invariant
            i <= 32,
            v.len() == 32,
            s == v@,
            forall|k: int| 0 <= k < i ==> is_hex(#[trigger] s[k]),
            acc == hex_seq_val(s.subrange(0, i as int)),
            acc < pow16(i as nat),
        decreases 32 - i,
    {
        let c = v[i];
        let d = hex_val_of(c);
        if d == 16 {
            return None;
        }
        proof {
            let p1 = s.subrange(0, i + 1);
            assert(p1.take(p1.len() - 1) =~= s.subrange(0, i as int));
            assert(p1[p1.len() - 1] == s[i as int]);
            lemma_hex_seq_val_bound(s.subrange(0, i as int));
            lemma_pow16_mono((i + 1) as nat, 32);
            lemma_pow16_128();
            assert(pow16((i + 1) as nat) == 16 * pow16(i as nat));
        }
        acc = acc * 16 + (d as u128);
        i = i + 1;
    }
    proof {
        assert(s.subrange(0, 32) =~= s);
        assert(is_hex_seq(s));
    }
    Some(acc)
}

/// Round trip of the identifier codec: the 32 hexadecimal digits of `v`
/// always read back as `v`.
pub proof fn lemma_hex32_round_trip(v: u128)
    ensures
        parse_hex32(hex32(v)) == Some(v),
        hex32(v).len() == 32,
        forall|i: int| 0 <= i < 32 ==> !is_ws(#[trigger] hex32(v)[i]) && hex32(v)[i] != ';',
{
    lemma_pow16_128();
    lemma_hex_digits(v as int, 32);
    assert forall|i: int| 0 <= i < 32 implies !is_ws(#[trigger] hex32(v)[i]) && hex32(v)[i]
        != ';' by {
        lemma_num_chars_plain(hex32(v)[i]);
    }
}

/// Round trip of the signed decimal codec, with the character shape facts
/// needed to embed the text in a larger line.
pub proof fn lemma_dec_i32_round_trip(n: i32)
    ensures
        parse_i32(dec_int(n as int)) == Some(n),
        dec_int(n as int).len() > 0,
        forall|i: int|
            0 <= i < dec_int(n as int).len() ==> !is_ws(#[trigger] dec_int(n as int)[i]) && dec_int(
                n as int,
            )[i] != ';' && dec_int(n as int)[i] != 'h' && dec_int(n as int)[i] != 'p',
{
    lemma_dec_int(n as int);
    assert forall|i: int| 0 <= i < dec_int(n as int).len() implies !is_ws(
        #[trigger] dec_int(n as int)[i],
    ) && dec_int(n as int)[i] != ';' && dec_int(n as int)[i] != 'h' && dec_int(n as int)[i]
        != 'p' by {
        lemma_num_chars_plain(dec_int(n as int)[i]);
    }
}

} // verus!
