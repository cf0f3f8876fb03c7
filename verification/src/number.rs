//! Whole numbers: reading integer literals, and writing in decimal the
//! numbers that take a loop variable's place.

use vstd::prelude::*;
use vstd::string::{StrSliceExecFns, StringExecFns};

verus! {

/// The character of a decimal digit.
pub open spec fn digit_char(d: int) -> char {
    if d == 0 {
        '0'
    } else if d == 1 {
        '1'
    } else if d == 2 {
        '2'
    } else if d == 3 {
        '3'
    } else if d == 4 {
        '4'
    } else if d == 5 {
        '5'
    } else if d == 6 {
        '6'
    } else if d == 7 {
        '7'
    } else if d == 8 {
        '8'
    } else {
        '9'
    }
}

/// A number written in decimal, without leading zeros.
pub open spec fn decimal(n: nat) -> Seq<char>
    decreases n,
{
    if n < 10 {
        seq![digit_char(n as int)]
    } else {
        decimal(n / 10).push(digit_char((n % 10) as int))
    }
}

/// The digit that a character stands for in base sixteen, if it stands for
/// one.
pub open spec fn hex_value(c: char) -> Option<int> {
    if c == '0' {
        Some(0)
    } else if c == '1' {
        Some(1)
    } else if c == '2' {
        Some(2)
    } else if c == '3' {
        Some(3)
    } else if c == '4' {
        Some(4)
    } else if c == '5' {
        Some(5)
    } else if c == '6' {
        Some(6)
    } else if c == '7' {
        Some(7)
    } else if c == '8' {
        Some(8)
    } else if c == '9' {
        Some(9)
    } else if c == 'a' || c == 'A' {
        Some(10)
    } else if c == 'b' || c == 'B' {
        Some(11)
    } else if c == 'c' || c == 'C' {
        Some(12)
    } else if c == 'd' || c == 'D' {
        Some(13)
    } else if c == 'e' || c == 'E' {
        Some(14)
    } else if c == 'f' || c == 'F' {
        Some(15)
    } else {
        None
    }
}

/// The digit that a character stands for in a base, if it stands for one.
pub open spec fn digit_in(c: char, base: int) -> Option<int> {
    match hex_value(c) {
        Some(d) => if d < base {
            Some(d)
        } else {
            None
        },
        None => None,
    }
}

/// The base that a literal is written in: sixteen after `0x`, eight after
/// `0o`, two after `0b`, and else ten.
pub open spec fn radix(text: Seq<char>) -> int {
    if text.len() >= 2 && text[0] == '0' && text[1] == 'x' {
        16
    } else if text.len() >= 2 && text[0] == '0' && text[1] == 'o' {
        8
    } else if text.len() >= 2 && text[0] == '0' && text[1] == 'b' {
        2
    } else {
        10
    }
}

/// Whether a text ends with another.
pub open spec fn ends_with(text: Seq<char>, tail: Seq<char>) -> bool {
    tail.len() <= text.len() && text.subrange(text.len() - tail.len(), text.len() as int) == tail
}

/// How many characters at the end of a literal name an integer type.
pub open spec fn suffix_len(text: Seq<char>) -> int {
    if ends_with(text, "usize"@) || ends_with(text, "isize"@) {
        5
    } else if ends_with(text, "u128"@) || ends_with(text, "i128"@) {
        4
    } else if ends_with(text, "u16"@) || ends_with(text, "i16"@) || ends_with(text, "u32"@)
        || ends_with(text, "i32"@) || ends_with(text, "u64"@) || ends_with(text, "i64"@) {
        3
    } else if ends_with(text, "u8"@) || ends_with(text, "i8"@) {
        2
    } else {
        0
    }
}

/// Whether the characters are digits of the base and underscores, with at
/// least one digit among them.
pub open spec fn digits_formed(digits: Seq<char>, base: int) -> bool {
    &&& forall|i: int|
        0 <= i < digits.len() ==> #[trigger] digits[i] == '_' || digit_in(digits[i], base) is Some
    &&& exists|i: int| 0 <= i < digits.len() && #[trigger] digits[i] != '_'
}

/// The number that digits of a base stand for; underscores between them
/// count for nothing.
pub open spec fn digits_value(digits: Seq<char>, base: int) -> nat
    decreases digits.len(),
{
    if digits.len() == 0 {
        0
    } else if digits.last() == '_' {
        digits_value(digits.drop_last(), base)
    } else {
        (digits_value(digits.drop_last(), base) * base + digit_in(digits.last(), base).unwrap_or(
            0,
        )) as nat
    }
}

/// The digits of a literal: what stands between the mark of its base and
/// the name of its type.
pub open spec fn digits_of(text: Seq<char>) -> Seq<char> {
    let from: int = if radix(text) == 10 {
        0
    } else {
        2
    };
    text.subrange(from, text.len() - suffix_len(text))
}

/// The number that an integer literal stands for. The literal is written
/// in base ten, or after `0x`, `0o` or `0b` in another; its digits may have
/// underscores between and after them, and one before them where the base
/// is marked; the name of an integer type may follow them. The number must
/// fit.
pub open spec fn number_of(text: Seq<char>) -> Option<u64> {
    let base = radix(text);
    let from: int = if base == 10 {
        0
    } else {
        2
    };
    if from <= text.len() - suffix_len(text) && digits_formed(digits_of(text), base) && (base == 10
        ==> text[0] != '_') && digits_value(digits_of(text), base) <= u64::MAX {
        Some(digits_value(digits_of(text), base) as u64)
    } else {
        None
    }
}

/// Digits that follow can only make a number larger.
pub proof fn lemma_digits_value_grows(digits: Seq<char>, base: int, n: int)
    requires
        0 <= n <= digits.len(),
        base >= 1,
    ensures
        digits_value(digits.take(n), base) <= digits_value(digits, base),
    decreases digits.len() - n,
{
    if n < digits.len() {
        let more = digits.take(n + 1);
        assert(more.drop_last() =~= digits.take(n));
        let v = digits_value(digits.take(n), base);
        let d = digit_in(more.last(), base).unwrap_or(0);
        assert(d >= 0);
        assert(v <= v * base + d) by (nonlinear_arith)
            requires
                v >= 0,
                d >= 0,
                base >= 1,
        ;
        lemma_digits_value_grows(digits, base, n + 1);
    } else {
        assert(digits.take(n) =~= digits);
    }
}

fn digit_of(c: char, base: u64) -> (r: Option<u64>)
    ensures
        match digit_in(c, base as int) {
            Some(d) => r == Some(d as u64) && 0 <= d < 16,
            None => r is None,
        },
{
    let d: u64 = if c == '0' {
        0
    } else if c == '1' {
        1
    } else if c == '2' {
        2
    } else if c == '3' {
        3
    } else if c == '4' {
        4
    } else if c == '5' {
        5
    } else if c == '6' {
        6
    } else if c == '7' {
        7
    } else if c == '8' {
        8
    } else if c == '9' {
        9
    } else if c == 'a' || c == 'A' {
        10
    } else if c == 'b' || c == 'B' {
        11
    } else if c == 'c' || c == 'C' {
        12
    } else if c == 'd' || c == 'D' {
        13
    } else if c == 'e' || c == 'E' {
        14
    } else if c == 'f' || c == 'F' {
        15
    } else {
        return None;
    };
    if d < base {
        Some(d)
    } else {
        None
    }
}

fn characters(text: &str) -> (r: Vec<char>)
    ensures
        r@ == text@,
{
    let n = text.unicode_len();
    let mut out: Vec<char> = Vec::new();
    let mut i: usize = 0;
    while i < n
        invariant
            i <= n,
            n == text@.len(),
            out@ == text@.take(i as int),
        decreases n - i,
    {
        out.push(text.get_char(i));
        assert(out@ =~= text@.take(i + 1));
        i += 1;
    }
    assert(text@.take(n as int) =~= text@);
    out
}

fn has_tail(text: &Vec<char>, tail: &str) -> (r: bool)
    ensures
        r == ends_with(text@, tail@),
{
    let m = tail.unicode_len();
    if m > text.len() {
        return false;
    }
    let from = text.len() - m;
    let ghost end = text@.subrange(from as int, text.len() as int);
    let mut j: usize = 0;
    while j < m
        invariant
            j <= m,
            m == tail@.len(),
            m <= text.len(),
            from == text.len() - m,
            end == text@.subrange(from as int, text.len() as int),
            forall|k: int| 0 <= k < j ==> end[k] == tail@[k],
        decreases m - j,
    {
        if text[from + j] != tail.get_char(j) {
            assert(end[j as int] != tail@[j as int]);
            return false;
        }
        j += 1;
    }
    assert(end =~= tail@);
    true
}

fn suffix_of(text: &Vec<char>) -> (r: usize)
    ensures
        r == suffix_len(text@),
        r <= text@.len(),
{
    if has_tail(text, "usize") || has_tail(text, "isize") {
        proof {
            reveal_strlit("usize");
            reveal_strlit("isize");
        }
        5
    } else if has_tail(text, "u128") || has_tail(text, "i128") {
        proof {
            reveal_strlit("u128");
            reveal_strlit("i128");
        }
        4
    } else if has_tail(text, "u16") || has_tail(text, "i16") || has_tail(text, "u32") || has_tail(
        text,
        "i32",
    ) || has_tail(text, "u64") || has_tail(text, "i64") {
        proof {
            reveal_strlit("u16");
            reveal_strlit("i16");
            reveal_strlit("u32");
            reveal_strlit("i32");
            reveal_strlit("u64");
            reveal_strlit("i64");
        }
        3
    } else if has_tail(text, "u8") || has_tail(text, "i8") {
        proof {
            reveal_strlit("u8");
            reveal_strlit("i8");
        }
        2
    } else {
        0
    }
}

/// Reads an integer literal.
pub fn read_number(text: &str) -> (r: Option<u64>)
    ensures
        r == number_of(text@),
{
    let chars = characters(text);
    let n = chars.len();
    let marked = n >= 2 && chars[0] == '0';
    let base: u64 = if marked && chars[1] == 'x' {
        16
    } else if marked && chars[1] == 'o' {
        8
    } else if marked && chars[1] == 'b' {
        2
    } else {
        10
    };
    let from: usize = if base == 10 {
        0
    } else {
        2
    };
    let to = n - suffix_of(&chars);
    if from > to {
        return None;
    }
    if base == 10 && to > 0 && chars[0] == '_' {
        return None;
    }
    let ghost digits = digits_of(text@);
    assert(base == radix(text@));
    assert(digits == chars@.subrange(from as int, to as int));
    let mut value: u64 = 0;
    let mut seen = false;
    let mut i: usize = from;
    assert(digits.take(0) =~= Seq::<char>::empty());
    while i < to
        invariant
            from <= i <= to,
            to <= chars.len(),
            digits == chars@.subrange(from as int, to as int),
            digits == digits_of(text@),
            base == radix(text@),
            base == 2 || base == 8 || base == 10 || base == 16,
            forall|k: int|
                0 <= k < i - from ==> #[trigger] digits[k] == '_' || digit_in(digits[k], base as int)
                    is Some,
            seen == exists|k: int| 0 <= k < i - from && #[trigger] digits[k] != '_',
            value == digits_value(digits.take(i - from), base as int),
        decreases to - i,
    {
        let c = chars[i];
        proof {
            assert(digits[i - from] == c);
            assert(digits.take(i - from + 1).drop_last() =~= digits.take(i - from));
            assert(digits.take(i - from + 1).last() == c);
        }
        if c != '_' {
            let d = match digit_of(c, base) {
                Some(d) => d,
                None => {
                    assert(!digits_formed(digits, base as int));
                    return None;
                },
            };
            let more = match value.checked_mul(base) {
                Some(scaled) => scaled.checked_add(d),
                None => None,
            };
            value = match more {
                Some(more) => more,
                None => {
                    proof {
                        lemma_digits_value_grows(digits, base as int, i - from + 1);
                    }
                    return None;
                },
            };
            assert(digits[i - from] != '_');
            seen = true;
        }
        i += 1;
    }
    assert(digits.take(to - from) =~= digits);
    if seen {
        Some(value)
    } else {
        None
    }
}

fn digit_text(d: u64) -> (r: &'static str)
    requires
        d < 10,
    ensures
        r@ == seq![digit_char(d as int)],
{
    proof {
        reveal_strlit("0");
        reveal_strlit("1");
        reveal_strlit("2");
        reveal_strlit("3");
        reveal_strlit("4");
        reveal_strlit("5");
        reveal_strlit("6");
        reveal_strlit("7");
        reveal_strlit("8");
        reveal_strlit("9");
    }
    let r = if d == 0 {
        "0"
    } else if d == 1 {
        "1"
    } else if d == 2 {
        "2"
    } else if d == 3 {
        "3"
    } else if d == 4 {
        "4"
    } else if d == 5 {
        "5"
    } else if d == 6 {
        "6"
    } else if d == 7 {
        "7"
    } else if d == 8 {
        "8"
    } else {
        "9"
    };
    assert(r@ =~= seq![digit_char(d as int)]);
    r
}

/// A number written in decimal holds decimal digits alone, at least one,
/// and they stand for the number.
pub proof fn lemma_decimal_digits(n: nat)
    ensures
        decimal(n).len() > 0,
        forall|i: int| 0 <= i < decimal(n).len() ==> digit_in(#[trigger] decimal(n)[i], 10) is Some,
        digits_value(decimal(n), 10) == n,
    decreases n,
{
    let text = decimal(n);
    if n < 10 {
        assert(text.drop_last() =~= Seq::<char>::empty());
        assert(digits_value(text.drop_last(), 10) == 0);
        assert(text.last() == digit_char(n as int));
    } else {
        lemma_decimal_digits(n / 10);
        assert(text.drop_last() =~= decimal(n / 10));
        assert(text.last() == digit_char((n % 10) as int));
        assert forall|i: int| 0 <= i < text.len() implies digit_in(#[trigger] text[i], 10)
            is Some by {
            if i < text.len() - 1 {
                assert(text[i] == decimal(n / 10)[i]);
            }
        }
    }
}

/// A text that ends with another holds the other's first character where
/// the other begins.
pub proof fn lemma_tail_begins(text: Seq<char>, tail: Seq<char>)
    requires
        ends_with(text, tail),
        tail.len() > 0,
    ensures
        text[text.len() - tail.len()] == tail[0],
{
    assert(text.subrange(text.len() - tail.len(), text.len() as int)[0] == tail[0]);
}

/// A text of decimal digits alone names no type at its end.
pub proof fn lemma_digits_have_no_suffix(text: Seq<char>)
    requires
        forall|i: int| 0 <= i < text.len() ==> digit_in(#[trigger] text[i], 10) is Some,
    ensures
        suffix_len(text) == 0,
{
    reveal_strlit("usize");
    reveal_strlit("isize");
    reveal_strlit("u128");
    reveal_strlit("i128");
    reveal_strlit("u16");
    reveal_strlit("i16");
    reveal_strlit("u32");
    reveal_strlit("i32");
    reveal_strlit("u64");
    reveal_strlit("i64");
    reveal_strlit("u8");
    reveal_strlit("i8");
    assert forall|tail: Seq<char>|
        tail.len() > 0 && (tail[0] == 'u' || tail[0] == 'i') implies !ends_with(text, tail) by {
        if ends_with(text, tail) {
            lemma_tail_begins(text, tail);
            assert(digit_in(text[text.len() - tail.len()], 10) is Some);
        }
    }
}

/// A number written in decimal reads as that number.
pub proof fn lemma_decimal_reads_back(n: nat)
    requires
        n <= u64::MAX,
    ensures
        number_of(decimal(n)) == Some(n as u64),
{
    let text = decimal(n);
    lemma_decimal_digits(n);
    lemma_digits_have_no_suffix(text);
    assert(digit_in(text[0], 10) is Some);
    if text.len() >= 2 {
        assert(digit_in(text[1], 10) is Some);
    }
    assert(radix(text) == 10);
    assert(digits_of(text) =~= text);
    assert(text[0] != '_');
}

/// Writes a number in decimal, so that it reads as the same number.
pub fn write_number(n: u64) -> (r: String)
    ensures
        r@ == decimal(n as nat),
        number_of(r@) == Some(n),
    decreases n,
{
    proof {
        lemma_decimal_reads_back(n as nat);
    }
    if n < 10 {
        String::from_str(digit_text(n))
    } else {
        let mut out = write_number(n / 10);
        out.append(digit_text(n % 10));
        assert(out@ =~= decimal(n as nat));
        out
    }
}

} // verus!
