//! Numerals: writing integers in decimal, reading integer literals in
//! radix 10 and 16, and recognising text that reads as a number.

use crate::text::chars_of;
use vstd::prelude::*;

verus! {

/// The character that stands for the digit `d` in decimal.
pub open spec fn digit_char(d: int) -> char {
    seq!['0', '1', '2', '3', '4', '5', '6', '7', '8', '9'][d]
}

/// The decimal digits of `n`, most significant first, without leading
/// zeros; `0` is written as one digit.
pub open spec fn digits(n: nat) -> Seq<char>
    decreases n,
{
    if n < 10 {
        seq![digit_char(n as int)]
    } else {
        digits(n / 10).push(digit_char((n % 10) as int))
    }
}

/// The decimal numeral of `n`: its digits, after a minus sign if `n` is
/// negative.
pub open spec fn decimal(n: int) -> Seq<char> {
    if n < 0 {
        seq!['-'] + digits((-n) as nat)
    } else {
        digits(n as nat)
    }
}

fn digit_to_char(d: u64) -> (c: char)
    requires
        d < 10,
    ensures
        c == digit_char(d as int),
{
    let code: u8 = 48 + d as u8;
    code as char
}

fn push_digits(out: &mut String, n: u64)
    ensures
        final(out)@ == old(out)@ + digits(n as nat),
    decreases n,
{
    if n >= 10 {
        push_digits(out, n / 10);
    }
    out.push(digit_to_char(n % 10));
}

/// Writes `n` in decimal.
pub fn decimal_of_i32(n: i32) -> (s: String)
    ensures
        s@ == decimal(n as int),
{
    let mut s = String::new();
    if n < 0 {
        s.push('-');
        let size: u64 = (-(n as i64)) as u64;
        push_digits(&mut s, size);
    } else {
        push_digits(&mut s, n as u64);
    }
    s
}

/// Writes `n` in decimal.
pub fn decimal_of_usize(n: usize) -> (s: String)
    ensures
        s@ == decimal(n as int),
{
    let mut s = String::new();
    push_digits(&mut s, n as u64);
    s
}

/// The value of `c` as a digit in the given radix, if it is one: `0` to `9`
/// stand for themselves, and the letters, in either case, for ten and up.
pub open spec fn digit_value(c: char, radix: int) -> Option<int> {
    let v = if '0' <= c <= '9' {
        c as int - '0' as int
    } else if 'a' <= c <= 'z' {
        c as int - 'a' as int + 10
    } else if 'A' <= c <= 'Z' {
        c as int - 'A' as int + 10
    } else {
        radix
    };
    if v < radix {
        Some(v)
    } else {
        None
    }
}

/// Whether `s` holds digits of the given radix and nothing else.
pub open spec fn all_digits(s: Seq<char>, radix: int) -> bool {
    forall|i: int| 0 <= i < s.len() ==> (#[trigger] digit_value(s[i], radix)) is Some
}

/// The number that the digits of `s` stand for in the given radix.
pub open spec fn magnitude(s: Seq<char>, radix: int) -> int
    decreases s.len(),
{
    if s.len() == 0 {
        0
    } else {
        magnitude(s.drop_last(), radix) * radix + digit_value(s.last(), radix).unwrap()
    }
}

/// Whether `c` is a plus or a minus sign.
pub open spec fn is_sign(c: char) -> bool {
    c == '+' || c == '-'
}

/// The integer that `s` stands for as a literal in the given radix: an
/// optional sign, then at least one digit, and nothing else. `None` if `s`
/// is no such literal.
pub open spec fn integer_literal(s: Seq<char>, radix: int) -> Option<int> {
    let signed = s.len() > 0 && is_sign(s[0]);
    let body = if signed {
        s.skip(1)
    } else {
        s
    };
    if body.len() > 0 && all_digits(body, radix) {
        if signed && s[0] == '-' {
            Some(-magnitude(body, radix))
        } else {
            Some(magnitude(body, radix))
        }
    } else {
        None
    }
}

/// [`integer_literal`], as far as the integer fits in an `i32`.
pub open spec fn i32_literal(s: Seq<char>, radix: int) -> Option<i32> {
    match integer_literal(s, radix) {
        Some(v) => if i32::MIN <= v <= i32::MAX {
            Some(v as i32)
        } else {
            None
        },
        None => None,
    }
}

proof fn lemma_magnitude_grows(s: Seq<char>, k: int, radix: int)
    requires
        radix >= 1,
        0 <= k <= s.len(),
        all_digits(s, radix),
    ensures
        0 <= magnitude(s.take(k), radix) <= magnitude(s, radix),
    decreases s.len(),
{
    if s.len() == 0 {
        assert(s.take(k) =~= s);
    } else if k == s.len() {
        assert(s.take(k) =~= s);
        lemma_magnitude_grows(s.drop_last(), k - 1, radix);
        assert(digit_value(s.last(), radix) is Some);
        let m = magnitude(s.drop_last(), radix);
        assert(m * radix >= 0) by (nonlinear_arith)
            requires
                m >= 0,
                radix >= 1,
        ;
    } else {
        lemma_magnitude_grows(s.drop_last(), k, radix);
        assert(s.drop_last().take(k) =~= s.take(k));
        assert(digit_value(s.last(), radix) is Some);
        let m = magnitude(s.drop_last(), radix);
        assert(m * radix >= m) by (nonlinear_arith)
            requires
                m >= 0,
                radix >= 1,
        ;
    }
}

fn digit_of(c: char, hex: bool) -> (d: Option<i64>)
    ensures
        d matches Some(v) ==> 0 <= v < 16,
        match d {
            Some(v) => digit_value(c, if hex { 16int } else { 10int }) == Some(v as int),
            None => digit_value(c, if hex { 16int } else { 10int }) is None,
        },
{
    let n: u32 = c as u32;
    if '0' <= c && c <= '9' {
        Some((n - 48) as i64)
    } else if hex && 'a' <= c && c <= 'f' {
        Some((n - 97 + 10) as i64)
    } else if hex && 'A' <= c && c <= 'F' {
        Some((n - 65 + 10) as i64)
    } else {
        None
    }
}

fn read_i32(chars: &Vec<char>, hex: bool) -> (r: Option<i32>)
    ensures
        r == i32_literal(chars@, if hex { 16int } else { 10int }),
{
    let ghost radix: int = if hex { 16 } else { 10 };
    let n = chars.len();
    let negative = n > 0 && chars[0] == '-';
    let start: usize = if n > 0 && (chars[0] == '+' || chars[0] == '-') {
        1
    } else {
        0
    };
    if start == n {
        return None;
    }
    let ghost body = if is_sign(chars[0]) {
        chars@.skip(1)
    } else {
        chars@
    };
    assert(body =~= chars@.skip(start as int));
    let mut acc: i64 = 0;
    let mut i: usize = start;
    while i < n
        invariant
            start <= i <= n,
            start < n,
            n == chars.len(),
            start == if is_sign(chars[0]) { 1int } else { 0int },
            radix == if hex { 16int } else { 10int },
            body == if is_sign(chars[0]) {
                chars@.skip(1)
            } else {
                chars@
            },
            body.len() == n - start,
            forall|j: int| 0 <= j < body.len() ==> body[j] == chars[j + start],
            all_digits(body.take(i - start), radix),
            acc == magnitude(body.take(i - start), radix),
            0 <= acc <= 0x8000_0000,
        decreases n - i,
    {
        let ghost before = body.take(i - start);
        let ghost after = body.take(i + 1 - start);
        assert(after.drop_last() =~= before);
        assert(after.last() == chars[i as int]);
        match digit_of(chars[i], hex) {
            None => {
                assert(digit_value(body[i - start], radix) is None);
                return None;
            },
            Some(d) => {
                let next: i64 = if hex {
                    acc * 16 + d
                } else {
                    acc * 10 + d
                };
                assert(next == magnitude(after, radix));
                assert(all_digits(after, radix)) by {
                    assert forall|j: int| 0 <= j < after.len() implies (#[trigger] digit_value(
                        after[j],
                        radix,
                    )) is Some by {
                        if j < before.len() {
                            assert(after[j] == before[j]);
                        }
                    }
                }
                if next > 0x8000_0000 {
                    proof {
                        if all_digits(body, radix) {
                            lemma_magnitude_grows(body, i + 1 - start, radix);
                        }
                    }
                    return None;
                }
                acc = next;
            },
        }
        i += 1;
    }
    assert(body.take(n - start) =~= body);
    if negative {
        Some((-acc) as i32)
    } else if acc == 0x8000_0000 {
        None
    } else {
        Some(acc as i32)
    }
}

/// Reads a decimal integer literal: an optional sign and at least one
/// digit. `None` if `s` is no such literal or the integer does not fit.
pub fn parse_i32(s: &str) -> (r: Option<i32>)
    ensures
        r == i32_literal(s@, 10),
{
    let chars = chars_of(s);
    read_i32(&chars, false)
}

/// Reads a hexadecimal integer literal: an optional sign and at least one
/// digit, the letters in either case. `None` if `s` is no such literal or
/// the integer does not fit.
pub fn parse_i32_hex(s: &str) -> (r: Option<i32>)
    ensures
        r == i32_literal(s@, 16),
{
    let chars = chars_of(s);
    read_i32(&chars, true)
}

/// Whether `c` is one of the digits `0` to `9`.
pub open spec fn is_decimal_digit(c: char) -> bool {
    '0' <= c <= '9'
}

/// The first position at or after `from` that holds no decimal digit, or
/// the length of `s` if there is none.
pub open spec fn skip_digits(s: Seq<char>, from: int) -> int
    decreases s.len() - from,
{
    if 0 <= from < s.len() && is_decimal_digit(s[from]) {
        skip_digits(s, from + 1)
    } else {
        from
    }
}

/// Whether `s` from `from` on is an exponent: the letter `e` in either
/// case, an optional sign, and at least one digit.
pub open spec fn is_exponent(s: Seq<char>, from: int) -> bool {
    let digits_from = if from + 1 < s.len() && is_sign(s[from + 1]) {
        from + 2
    } else {
        from + 1
    };
    &&& 0 <= from < s.len()
    &&& s[from] == 'e' || s[from] == 'E'
    &&& digits_from < s.len()
    &&& skip_digits(s, digits_from) == s.len()
}

/// Whether `s` from `from` on is a decimal number: digits with at most one
/// point among them, before it or after it or both, and then an optional
/// exponent.
pub open spec fn is_decimal_number(s: Seq<char>, from: int) -> bool {
    let whole_end = skip_digits(s, from);
    let pointed = whole_end < s.len() && s[whole_end] == '.';
    let fraction_end = if pointed {
        skip_digits(s, whole_end + 1)
    } else {
        whole_end
    };
    let digit_count = if pointed {
        fraction_end - from - 1
    } else {
        fraction_end - from
    };
    &&& 0 <= from <= s.len()
    &&& digit_count > 0
    &&& fraction_end == s.len() || is_exponent(s, fraction_end)
}

/// Whether `c` is the lower-case letter `letter` or its upper-case form.
pub open spec fn is_letter(c: char, letter: char) -> bool {
    c == letter || c as int + 32 == letter as int
}

/// Whether `s` from `from` on spells `word`, which is in lower case, in
/// any mix of cases.
pub open spec fn spells(s: Seq<char>, from: int, word: Seq<char>) -> bool {
    &&& 0 <= from
    &&& s.len() - from == word.len()
    &&& forall|i: int| 0 <= i < word.len() ==> is_letter(s[from + i], #[trigger] word[i])
}

/// Whether `s` reads as a number: after an optional sign, a decimal number,
/// or one of the words `inf`, `infinity` and `nan`.
pub open spec fn is_number(s: Seq<char>) -> bool {
    let from: int = if s.len() > 0 && is_sign(s[0]) {
        1
    } else {
        0
    };
    ||| is_decimal_number(s, from)
    ||| spells(s, from, seq!['i', 'n', 'f'])
    ||| spells(s, from, seq!['i', 'n', 'f', 'i', 'n', 'i', 't', 'y'])
    ||| spells(s, from, seq!['n', 'a', 'n'])
}

fn scan_digits(chars: &Vec<char>, from: usize) -> (end: usize)
    requires
        from <= chars.len(),
    ensures
        end == skip_digits(chars@, from as int),
        from <= end <= chars.len(),
{
    let mut end: usize = from;
    while end < chars.len() && '0' <= chars[end] && chars[end] <= '9'
        invariant
            from <= end <= chars.len(),
            skip_digits(chars@, from as int) == skip_digits(chars@, end as int),
        decreases chars.len() - end,
    {
        end += 1;
    }
    end
}

fn exponent_at(chars: &Vec<char>, from: usize) -> (yes: bool)
    requires
        from < chars.len(),
    ensures
        yes == is_exponent(chars@, from as int),
{
    let n = chars.len();
    if chars[from] != 'e' && chars[from] != 'E' {
        return false;
    }
    let digits_from: usize = if from + 1 < n && (chars[from + 1] == '+' || chars[from + 1]
        == '-') {
        from + 2
    } else {
        from + 1
    };
    if digits_from >= n {
        return false;
    }
    scan_digits(chars, digits_from) == n
}

fn decimal_number_at(chars: &Vec<char>, from: usize) -> (yes: bool)
    requires
        from <= chars.len(),
    ensures
        yes == is_decimal_number(chars@, from as int),
{
    let n = chars.len();
    let whole_end = scan_digits(chars, from);
    let pointed = whole_end < n && chars[whole_end] == '.';
    let fraction_end = if pointed {
        scan_digits(chars, whole_end + 1)
    } else {
        whole_end
    };
    let digit_count = if pointed {
        fraction_end - from - 1
    } else {
        fraction_end - from
    };
    if digit_count == 0 {
        return false;
    }
    fraction_end == n || exponent_at(chars, fraction_end)
}

fn letter_matches(c: char, letter: char) -> (yes: bool)
    ensures
        yes == is_letter(c, letter),
{
    let code: u32 = c as u32;
    let letter_code: u32 = letter as u32;
    c == letter || (code as u64) + 32 == letter_code as u64
}

fn spells_at(chars: &Vec<char>, from: usize, word: &Vec<char>) -> (yes: bool)
    requires
        from <= chars.len(),
    ensures
        yes == spells(chars@, from as int, word@),
{
    if chars.len() - from != word.len() {
        return false;
    }
    let mut i: usize = 0;
    while i < word.len()
        invariant
            from <= chars.len(),
            chars.len() - from == word.len(),
            i <= word.len(),
            forall|j: int| 0 <= j < i ==> is_letter(chars[from + j], #[trigger] word[j]),
        decreases word.len() - i,
    {
        if !letter_matches(chars[from + i], word[i]) {
            return false;
        }
        i += 1;
    }
    true
}

/// Decides whether `s` reads as a number (see [`is_number`]).
pub fn reads_as_number(s: &str) -> (yes: bool)
    ensures
        yes == is_number(s@),
{
    let chars = chars_of(s);
    let from: usize = if chars.len() > 0 && (chars[0] == '+' || chars[0] == '-') {
        1
    } else {
        0
    };
    if decimal_number_at(&chars, from) {
        return true;
    }
    let inf: Vec<char> = vec!['i', 'n', 'f'];
    let infinity: Vec<char> = vec!['i', 'n', 'f', 'i', 'n', 'i', 't', 'y'];
    let nan: Vec<char> = vec!['n', 'a', 'n'];
    spells_at(&chars, from, &inf) || spells_at(&chars, from, &infinity) || spells_at(
        &chars,
        from,
        &nan,
    )
}

} // verus!
