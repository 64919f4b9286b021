//! Numeric literal text: recognising and reading signed decimal integers, and
//! recognising floating-point literals, together with decimal rendering.

use vstd::prelude::*;
use vstd::string::StrSliceExecFns;
use vstd::string::StringExecFns;

use crate::text::chars_of;

verus! {

/// The value of a decimal digit character, if it is one.
pub open spec fn digit_of(c: char) -> Option<int> {
    if c == '0' {
        Some(0)
    } else if c == '1' {
        Some(1)
    } else if c == '2' {
        Some(2)
    } else if c == '3' {
        Some(3)
    } else if c == '4' {
        Some(4)
    } else if c == '5' {
        Some(5)
    } else if c == '6' {
        Some(6)
    } else if c == '7' {
        Some(7)
    } else if c == '8' {
        Some(8)
    } else if c == '9' {
        Some(9)
    } else {
        None
    }
}

pub open spec fn is_digit(c: char) -> bool {
    digit_of(c) is Some
}

pub open spec fn digit_val(c: char) -> int {
    match digit_of(c) {
        Some(d) => d,
        None => 0,
    }
}

/// Every character in `[from, to)` is a decimal digit.
pub open spec fn all_digits(s: Seq<char>, from: int, to: int) -> bool {
    forall|k: int| from <= k < to ==> is_digit(#[trigger] s[k])
}

/// The value of the decimal digits in `[from, to)`, most significant first.
pub open spec fn digits_val(s: Seq<char>, from: int, to: int) -> int
    decreases to - from,
{
    if to <= from {
        0
    } else {
        digits_val(s, from, to - 1) * 10 + digit_val(s[to - 1])
    }
}

pub proof fn lemma_digits_val_nonneg(s: Seq<char>, from: int, to: int)
    ensures
        digits_val(s, from, to) >= 0,
    decreases to - from,
{
    if to > from {
        lemma_digits_val_nonneg(s, from, to - 1);
    }
}

/// Reading more digits never shrinks the value.
pub proof fn lemma_digits_val_grows(s: Seq<char>, from: int, to: int, to2: int)
    requires
        to <= to2,
    ensures
        digits_val(s, from, to2) >= digits_val(s, from, to),
    decreases to2 - to,
{
    if to < to2 {
        lemma_digits_val_grows(s, from, to, to2 - 1);
        lemma_digits_val_nonneg(s, from, to2 - 1);
    }
}

pub open spec fn sign_char(c: char) -> bool {
    c == '+' || c == '-'
}

/// Index of the first digit of a signed numeric literal.
pub open spec fn body_start(s: Seq<char>) -> int {
    if s.len() > 0 && sign_char(s[0]) {
        1
    } else {
        0
    }
}

/// The text is a decimal `i64` literal: an optional sign, then one or more
/// digits, whose value fits the type.
pub open spec fn is_i64_text(s: Seq<char>) -> bool {
    let b = body_start(s);
    let n = s.len() as int;
    b < n && all_digits(s, b, n) && (if s[0] == '-' {
        digits_val(s, b, n) <= 0x8000_0000_0000_0000
    } else {
        digits_val(s, b, n) <= 0x7fff_ffff_ffff_ffff
    })
}

/// The value of a decimal `i64` literal.
pub open spec fn i64_of_text(s: Seq<char>) -> int {
    if s.len() > 0 && s[0] == '-' {
        -digits_val(s, body_start(s), s.len() as int)
    } else {
        digits_val(s, body_start(s), s.len() as int)
    }
}

fn digit_exec(c: char) -> (r: Option<u64>)
    ensures
        match r {
            Some(d) => digit_of(c) == Some(d as int),
            None => digit_of(c) is None,
        },
{
    match c {
        '0' => Some(0),
        '1' => Some(1),
        '2' => Some(2),
        '3' => Some(3),
        '4' => Some(4),
        '5' => Some(5),
        '6' => Some(6),
        '7' => Some(7),
        '8' => Some(8),
        '9' => Some(9),
        _ => None,
    }
}

/// Reads a signed decimal `i64` from text; yields nothing exactly on text that
/// is not an `i64` literal.
pub fn parse_i64(s: &str) -> (r: Option<i64>)
    ensures
        match r {
            Some(v) => is_i64_text(s@) && v as int == i64_of_text(s@),
            None => !is_i64_text(s@),
        },
{
    let chars = chars_of(s);
    let n = chars.len();
    let mut start: usize = 0;
    let mut neg = false;
    if n > 0 && (chars[0] == '+' || chars[0] == '-') {
        start = 1;
        neg = chars[0] == '-';
    }
    if start >= n {
        return None;
    }
    let bound: u64 = if neg {
        9223372036854775808
    } else {
        9223372036854775807
    };
    let mut acc: u64 = 0;
    let mut i: usize = start;
    while i < n
        invariant
            n == chars.len(),
            chars@ == s@,
            start as int == body_start(s@),
            start < n,
            neg == (s@[0] == '-' && s@.len() > 0 && sign_char(s@[0])),
            bound == (if neg {
                9223372036854775808u64
            } else {
                9223372036854775807u64
            }),
            start <= i <= n,
            all_digits(s@, start as int, i as int),
            acc as int == digits_val(s@, start as int, i as int),
            acc <= bound,
        decreases n - i,
    {
        let c = chars[i];
        match digit_exec(c) {
            None => {
                proof {
                    assert(!is_digit(s@[i as int]));
                    assert(!all_digits(s@, start as int, n as int));
                }
                return None;
            },
            Some(d) => {
                if acc > (bound - d) / 10 {
                    proof {
                        let q = ((bound - d) / 10) as int;
                        vstd::arithmetic::div_mod::lemma_fundamental_div_mod(
                            (bound - d) as int,
                            10,
                        );
                        vstd::arithmetic::div_mod::lemma_mod_division_less_than_divisor(
                            (bound - d) as int,
                            10,
                        );
                        assert(acc as int >= q + 1);
                        assert(acc as int * 10 >= (q + 1) * 10) by (nonlinear_arith)
                            requires
                                acc as int >= q + 1,
                        ;
                        assert(acc as int * 10 + d as int > bound as int);
                        assert(digits_val(s@, start as int, i as int + 1) == acc as int * 10
                            + d as int);
                        if all_digits(s@, start as int, n as int) {
                            lemma_digits_val_grows(s@, start as int, i as int + 1, n as int);
                        }
                        assert(!is_i64_text(s@));
                    }
                    return None;
                }
                proof {
                    let q = ((bound - d) / 10) as int;
                    vstd::arithmetic::div_mod::lemma_fundamental_div_mod((bound - d) as int, 10);
                    vstd::arithmetic::div_mod::lemma_mod_division_less_than_divisor(
                        (bound - d) as int,
                        10,
                    );
                    assert(acc as int * 10 <= q * 10) by (nonlinear_arith)
                        requires
                            acc as int <= q,
                    ;
                    assert(acc as int * 10 + d as int <= bound as int);
                }
                acc = acc * 10 + d;
                proof {
                    assert(digits_val(s@, start as int, i as int + 1) == acc as int);
                    assert(all_digits(s@, start as int, i as int + 1));
                }
                i += 1;
            },
        }
    }
    proof {
        assert(is_i64_text(s@));
    }
    if neg {
        if acc == 9223372036854775808 {
            Some(i64::MIN)
        } else {
            Some(-(acc as i64))
        }
    } else {
        Some(acc as i64)
    }
}

/// Index of the first occurrence of `c1` or `c2` in `[i, to)`, if any.
pub open spec fn find_first2(s: Seq<char>, i: int, to: int, c1: char, c2: char) -> Option<int>
    decreases to - i,
{
    if i < 0 || i >= to {
        None
    } else if s[i] == c1 || s[i] == c2 {
        Some(i)
    } else {
        find_first2(s, i + 1, to, c1, c2)
    }
}

proof fn lemma_find_first2_skip(s: Seq<char>, i: int, j: int, to: int, c1: char, c2: char)
    requires
        0 <= i <= j <= to,
        forall|k: int| i <= k < j ==> s[k] != c1 && s[k] != c2,
    ensures
        find_first2(s, i, to, c1, c2) == find_first2(s, j, to, c1, c2),
    decreases j - i,
{
    if i < j {
        lemma_find_first2_skip(s, i + 1, j, to, c1, c2);
    }
}

/// The mantissa of a floating-point literal: digits, with at most one dot
/// among them and at least one digit.
pub open spec fn is_mantissa(s: Seq<char>, from: int, to: int) -> bool {
    match find_first2(s, from, to, '.', '.') {
        None => from < to && all_digits(s, from, to),
        Some(i) => all_digits(s, from, i) && all_digits(s, i + 1, to) && (i > from || i + 1 < to),
    }
}

/// An exponent tail: an optional sign, then one or more digits.
pub open spec fn is_exp_tail(s: Seq<char>, from: int, to: int) -> bool {
    let b = if from < to && sign_char(s[from]) {
        from + 1
    } else {
        from
    };
    b < to && all_digits(s, b, to)
}

/// A floating-point number: a mantissa, optionally followed by `e` or `E` and
/// an exponent tail.
pub open spec fn is_float_number(s: Seq<char>, from: int, to: int) -> bool {
    match find_first2(s, from, to, 'e', 'E') {
        None => is_mantissa(s, from, to),
        Some(i) => is_mantissa(s, from, i) && is_exp_tail(s, i + 1, to),
    }
}

/// Case-insensitive match of one ASCII letter.
pub open spec fn ci(c: char, lo: char, up: char) -> bool {
    c == lo || c == up
}

pub open spec fn is_inf_kw(s: Seq<char>, from: int, to: int) -> bool {
    to - from == 3 && ci(s[from], 'i', 'I') && ci(s[from + 1], 'n', 'N') && ci(
        s[from + 2],
        'f',
        'F',
    )
}

pub open spec fn is_infinity_kw(s: Seq<char>, from: int, to: int) -> bool {
    to - from == 8 && ci(s[from], 'i', 'I') && ci(s[from + 1], 'n', 'N') && ci(
        s[from + 2],
        'f',
        'F',
    ) && ci(s[from + 3], 'i', 'I') && ci(s[from + 4], 'n', 'N') && ci(s[from + 5], 'i', 'I') && ci(
        s[from + 6],
        't',
        'T',
    ) && ci(s[from + 7], 'y', 'Y')
}

pub open spec fn is_nan_kw(s: Seq<char>, from: int, to: int) -> bool {
    to - from == 3 && ci(s[from], 'n', 'N') && ci(s[from + 1], 'a', 'A') && ci(
        s[from + 2],
        'n',
        'N',
    )
}

/// The text is a floating-point literal: an optional sign, then `inf`,
/// `infinity` or `nan` in any letter case, or a decimal number with an
/// optional dot and an optional exponent.
pub open spec fn is_float_text(s: Seq<char>) -> bool {
    let b = body_start(s);
    let n = s.len() as int;
    is_inf_kw(s, b, n) || is_infinity_kw(s, b, n) || is_nan_kw(s, b, n) || is_float_number(s, b, n)
}

fn find_first2_exec(chars: &Vec<char>, from: usize, to: usize, c1: char, c2: char) -> (r: Option<
    usize,
>)
    requires
        from <= to <= chars@.len(),
    ensures
        match r {
            Some(i) => from <= i < to && find_first2(chars@, from as int, to as int, c1, c2)
                == Some(i as int),
            None => find_first2(chars@, from as int, to as int, c1, c2) is None,
        },
{
    let mut i: usize = from;
    while i < to
        invariant
            from <= i <= to <= chars@.len(),
            forall|k: int| from <= k < i ==> chars@[k] != c1 && chars@[k] != c2,
        decreases to - i,
    {
        if chars[i] == c1 || chars[i] == c2 {
            proof {
                lemma_find_first2_skip(chars@, from as int, i as int, to as int, c1, c2);
            }
            return Some(i);
        }
        i += 1;
    }
    proof {
        lemma_find_first2_skip(chars@, from as int, to as int, to as int, c1, c2);
    }
    None
}

fn all_digits_exec(chars: &Vec<char>, from: usize, to: usize) -> (r: bool)
    requires
        from <= to <= chars@.len(),
    ensures
        r == all_digits(chars@, from as int, to as int),
{
    let mut i: usize = from;
    while i < to
        invariant
            from <= i <= to <= chars@.len(),
            forall|k: int| from <= k < i ==> is_digit(#[trigger] chars@[k]),
        decreases to - i,
    {
        if digit_exec(chars[i]).is_none() {
            return false;
        }
        i += 1;
    }
    true
}

fn mantissa_exec(chars: &Vec<char>, from: usize, to: usize) -> (r: bool)
    requires
        from <= to <= chars@.len(),
    ensures
        r == is_mantissa(chars@, from as int, to as int),
{
    match find_first2_exec(chars, from, to, '.', '.') {
        None => from < to && all_digits_exec(chars, from, to),
        Some(i) => all_digits_exec(chars, from, i) && all_digits_exec(chars, i + 1, to) && (i
            > from || i + 1 < to),
    }
}

fn exp_tail_exec(chars: &Vec<char>, from: usize, to: usize) -> (r: bool)
    requires
        from <= to <= chars@.len(),
    ensures
        r == is_exp_tail(chars@, from as int, to as int),
{
    let b: usize = if from < to && (chars[from] == '+' || chars[from] == '-') {
        from + 1
    } else {
        from
    };
    b < to && all_digits_exec(chars, b, to)
}

/// Recognises a floating-point literal; the engine keeps such a value as its
/// validated text.
pub fn is_float_str(s: &str) -> (r: bool)
    ensures
        r == is_float_text(s@),
{
    let chars = chars_of(s);
    let n = chars.len();
    let b: usize = if n > 0 && (chars[0] == '+' || chars[0] == '-') {
        1
    } else {
        0
    };
    if n - b == 3 && (chars[b] == 'i' || chars[b] == 'I') && (chars[b + 1] == 'n' || chars[b + 1]
        == 'N') && (chars[b + 2] == 'f' || chars[b + 2] == 'F') {
        return true;
    }
    if n - b == 8 && (chars[b] == 'i' || chars[b] == 'I') && (chars[b + 1] == 'n' || chars[b + 1]
        == 'N') && (chars[b + 2] == 'f' || chars[b + 2] == 'F') && (chars[b + 3] == 'i' || chars[b
        + 3] == 'I') && (chars[b + 4] == 'n' || chars[b + 4] == 'N') && (chars[b + 5] == 'i'
        || chars[b + 5] == 'I') && (chars[b + 6] == 't' || chars[b + 6] == 'T') && (chars[b + 7]
        == 'y' || chars[b + 7] == 'Y') {
        return true;
    }
    if n - b == 3 && (chars[b] == 'n' || chars[b] == 'N') && (chars[b + 1] == 'a' || chars[b + 1]
        == 'A') && (chars[b + 2] == 'n' || chars[b + 2] == 'N') {
        return true;
    }
    let num = match find_first2_exec(&chars, b, n, 'e', 'E') {
        None => mantissa_exec(&chars, b, n),
        Some(i) => mantissa_exec(&chars, b, i) && exp_tail_exec(&chars, i + 1, n),
    };
    num
}

/// The character of a decimal digit value.
pub open spec fn digit_char(d: int) -> char {
    if d == 0 {
        '0'
    } else if d == 1 {
        '1'
    } else if d == 2 {
        '2'
    } else if d == 3 {
        '3'
    } else if d == 4 {
        '4'
    } else if d == 5 {
        '5'
    } else if d == 6 {
        '6'
    } else if d == 7 {
        '7'
    } else if d == 8 {
        '8'
    } else {
        '9'
    }
}

/// Decimal rendering of a non-negative integer.
pub open spec fn nat_text(n: int) -> Seq<char>
    decreases n,
{
    if n < 10 {
        seq![digit_char(n)]
    } else {
        nat_text(n / 10) + seq![digit_char(n % 10)]
    }
}

/// Decimal rendering of a signed integer.
pub open spec fn i64_text(v: int) -> Seq<char> {
    if v < 0 {
        seq!['-'] + nat_text(-v)
    } else {
        nat_text(v)
    }
}

fn digit_str(d: u64) -> (r: &'static str)
    requires
        d < 10,
    ensures
        r@ == seq![digit_char(d as int)],
{
    proof {
        reveal_strlit("0");
        reveal_strlit("1");
        reveal_strlit("2");
        reveal_strlit("3");
        reveal_strlit("4");
        reveal_strlit("5");
        reveal_strlit("6");
        reveal_strlit("7");
        reveal_strlit("8");
        reveal_strlit("9");
    }
    let r = match d {
        0 => "0",
        1 => "1",
        2 => "2",
        3 => "3",
        4 => "4",
        5 => "5",
        6 => "6",
        7 => "7",
        8 => "8",
        _ => "9",
    };
    proof {
        assert(r@ =~= seq![digit_char(d as int)]);
    }
    r
}

/// Renders an unsigned integer in decimal.
pub fn u64_to_string(n: u64) -> (r: String)
    ensures
        r@ == nat_text(n as int),
    decreases n,
{
    if n < 10 {
        digit_str(n).to_owned()
    } else {
        let mut s = u64_to_string(n / 10);
        s.append(digit_str(n % 10));
        proof {
            assert(s@ =~= nat_text(n as int));
        }
        s
    }
}

/// Renders a signed integer in decimal.
pub fn i64_to_string(v: i64) -> (r: String)
    ensures
        r@ == i64_text(v as int),
{
    proof {
        reveal_strlit("-");
    }
    if v >= 0 {
        u64_to_string(v as u64)
    } else {
        let mag: u64 = if v == i64::MIN {
            9223372036854775808
        } else {
            (-v) as u64
        };
        let mut s = String::new();
        s.append("-");
        let digits = u64_to_string(mag);
        s.append(digits.as_str());
        proof {
            assert(s@ =~= seq!['-'] + nat_text(mag as int));
        }
        s
    }
}

} // verus!
