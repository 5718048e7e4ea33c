//! Text fields: comparison, decimal numbers in and out.

use vstd::prelude::*;
use vstd::string::*;

verus! {

/// The characters of `text`, in order.
pub fn chars_of(text: &str) -> (chars: Vec<char>)
    ensures
        chars@ == text@,
{
    let n = text.unicode_len();
    let mut chars: Vec<char> = Vec::new();
    let mut i: usize = 0;
    while i < n
        invariant
            n == text@.len(),
            i <= n,
            chars@ == text@.take(i as int),
        decreases n - i,
    {
        chars.push(text.get_char(i));
        i += 1;
    }
    chars
}

/// Whether two pieces of text hold the same characters.
pub fn same_text(a: &str, b: &str) -> (same: bool)
    ensures
        same == (a@ == b@),
{
    a.to_owned() == b.to_owned()
}

/// Whether `c` is white space: one of the characters with the Unicode
/// property White_Space.
pub open spec fn is_white_space(c: char) -> bool {
    ||| '\u{9}' <= c <= '\u{d}'
    ||| c == ' '
    ||| c == '\u{85}'
    ||| c == '\u{a0}'
    ||| c == '\u{1680}'
    ||| '\u{2000}' <= c <= '\u{200a}'
    ||| c == '\u{2028}'
    ||| c == '\u{2029}'
    ||| c == '\u{202f}'
    ||| c == '\u{205f}'
    ||| c == '\u{3000}'
}

/// The position of the first character at or after `from` that is not white
/// space; the length of the text if there is none.
pub open spec fn leading_space_end(s: Seq<char>, from: int) -> int
    decreases s.len() - from,
{
    if from < 0 || from >= s.len() {
        s.len() as int
    } else if !is_white_space(s[from]) {
        from
    } else {
        leading_space_end(s, from + 1)
    }
}

/// The position behind the last character before `upto` that is not white
/// space; 0 if there is none.
pub open spec fn trailing_space_start(s: Seq<char>, upto: int) -> int
    decreases upto,
{
    if upto <= 0 || upto > s.len() {
        0
    } else if !is_white_space(s[upto - 1]) {
        upto
    } else {
        trailing_space_start(s, upto - 1)
    }
}

/// `text` without the white space at its start and at its end: the longest
/// part of it that neither begins nor ends with white space.
pub open spec fn trimmed(text: Seq<char>) -> Seq<char> {
    let start = leading_space_end(text, 0);
    let end = trailing_space_start(text, text.len() as int);
    if start < end {
        text.subrange(start, end)
    } else {
        Seq::empty()
    }
}

/// Everything from `from` up to where the leading white space ends is white
/// space, and what stands there is not.
pub proof fn lemma_leading_space(s: Seq<char>, from: int)
    requires
        0 <= from <= s.len(),
    ensures
        from <= leading_space_end(s, from) <= s.len(),
        forall|i: int| from <= i < leading_space_end(s, from) ==> is_white_space(#[trigger] s[i]),
        leading_space_end(s, from) < s.len() ==> !is_white_space(s[leading_space_end(s, from)]),
    decreases s.len() - from,
{
    if from < s.len() && is_white_space(s[from]) {
        lemma_leading_space(s, from + 1);
    }
}

/// Everything from where the trailing white space starts up to `upto` is
/// white space, and what stands in front of it is not.
pub proof fn lemma_trailing_space(s: Seq<char>, upto: int)
    requires
        0 <= upto <= s.len(),
    ensures
        0 <= trailing_space_start(s, upto) <= upto,
        forall|i: int|
            trailing_space_start(s, upto) <= i < upto ==> is_white_space(#[trigger] s[i]),
        trailing_space_start(s, upto) > 0 ==> !is_white_space(
            s[trailing_space_start(s, upto) - 1],
        ),
    decreases upto,
{
    if upto > 0 && is_white_space(s[upto - 1]) {
        lemma_trailing_space(s, upto - 1);
    }
}

/// What trimming leaves neither begins nor ends with white space, and is
/// empty only if the text is white space throughout. What it takes away, in
/// front and behind, is white space.
pub proof fn lemma_trimmed(text: Seq<char>)
    ensures
        trimmed(text).len() > 0 ==> !is_white_space(trimmed(text)[0]) && !is_white_space(
            trimmed(text).last(),
        ),
        trimmed(text).len() == 0 ==> forall|i: int|
            0 <= i < text.len() ==> is_white_space(#[trigger] text[i]),
        exists|front: Seq<char>, back: Seq<char>|
            {
                &&& text == front + trimmed(text) + back
                &&& forall|i: int| 0 <= i < front.len() ==> is_white_space(#[trigger] front[i])
                &&& forall|i: int| 0 <= i < back.len() ==> is_white_space(#[trigger] back[i])
            },
{
    lemma_leading_space(text, 0);
    lemma_trailing_space(text, text.len() as int);
    let start = leading_space_end(text, 0);
    let end = trailing_space_start(text, text.len() as int);
    if start < end {
        let front = text.subrange(0, start);
        let back = text.subrange(end, text.len() as int);
        assert(text =~= front + trimmed(text) + back);
    } else {
        let back = Seq::<char>::empty();
        assert forall|i: int| 0 <= i < text.len() implies is_white_space(#[trigger] text[i]) by {
            if i < start {
            } else {
                assert(end <= i);
            }
        }
        assert(text =~= text + trimmed(text) + back);
    }
}

/// Whether `c` is white space.
pub fn is_space(c: char) -> (yes: bool)
    ensures
        yes == is_white_space(c),
{
    (c >= '\u{9}' && c <= '\u{d}') || c == ' ' || c == '\u{85}' || c == '\u{a0}' || c
        == '\u{1680}' || (c >= '\u{2000}' && c <= '\u{200a}') || c == '\u{2028}' || c
        == '\u{2029}' || c == '\u{202f}' || c == '\u{205f}' || c == '\u{3000}'
}

/// Removes the white space at the start and at the end of `text`.
pub fn trim_text(text: &str) -> (kept: String)
    ensures
        kept@ == trimmed(text@),
{
    let chars = chars_of(text);
    let n = chars.len();
    let mut start: usize = 0;
    while start < n && is_space(chars[start])
        invariant
            chars@ == text@,
            n == chars.len(),
            start <= n,
            leading_space_end(text@, 0) == leading_space_end(text@, start as int),
        decreases n - start,
    {
        start += 1;
    }
    let mut end: usize = n;
    while end > 0 && is_space(chars[end - 1])
        invariant
            chars@ == text@,
            n == chars.len(),
            end <= n,
            trailing_space_start(text@, n as int) == trailing_space_start(text@, end as int),
        decreases end,
    {
        end -= 1;
    }
    if start < end {
        String::from_str(text.substring_char(start, end))
    } else {
        String::new()
    }
}

/// The decimal digit `d` as a character.
pub open spec fn digit_char(d: int) -> char {
    seq!['0', '1', '2', '3', '4', '5', '6', '7', '8', '9'][d]
}

/// `n` in decimal, without sign or leading zeros.
pub open spec fn decimal(n: nat) -> Seq<char>
    decreases n,
{
    if n < 10 {
        seq![digit_char(n as int)]
    } else {
        decimal(n / 10).push(digit_char((n % 10) as int))
    }
}

fn digit_text(d: u64) -> (text: &'static str)
    requires
        d < 10,
    ensures
        text@ == seq![digit_char(d as int)],
{
    proof {
        reveal_strlit("0");
        reveal_strlit("1");
        reveal_strlit("2");
        reveal_strlit("3");
        reveal_strlit("4");
        reveal_strlit("5");
        reveal_strlit("6");
        reveal_strlit("7");
        reveal_strlit("8");
        reveal_strlit("9");
    }
    let text = if d == 0 {
        "0"
    } else if d == 1 {
        "1"
    } else if d == 2 {
        "2"
    } else if d == 3 {
        "3"
    } else if d == 4 {
        "4"
    } else if d == 5 {
        "5"
    } else if d == 6 {
        "6"
    } else if d == 7 {
        "7"
    } else if d == 8 {
        "8"
    } else {
        "9"
    };
    assert(text@ =~= seq![digit_char(d as int)]);
    text
}

/// Formats `n` in decimal.
pub fn decimal_text(n: u64) -> (text: String)
    ensures
        text@ == decimal(n as nat),
    decreases n,
{
    if n < 10 {
        String::from_str(digit_text(n))
    } else {
        let mut text = decimal_text(n / 10);
        text.append(digit_text(n % 10));
        text
    }
}

/// Whether `c` is one of `0` to `9`.
pub open spec fn is_digit(c: char) -> bool {
    '0' <= c <= '9'
}

/// The value of the digit `c`.
pub open spec fn digit_value(c: char) -> nat {
    (c as nat - '0' as nat) as nat
}

/// The number that the digits `s` spell in decimal; 0 for no digits.
pub open spec fn digits_value(s: Seq<char>) -> nat
    decreases s.len(),
{
    if s.len() == 0 {
        0
    } else {
        digits_value(s.drop_last()) * 10 + digit_value(s.last())
    }
}

/// Every character of `s` is a digit.
pub open spec fn all_digits(s: Seq<char>) -> bool {
    forall|i: int| 0 <= i < s.len() ==> is_digit(#[trigger] s[i])
}

/// `s` without one leading `+`, if it has one.
pub open spec fn after_plus(s: Seq<char>) -> Seq<char> {
    if s.len() > 0 && s[0] == '+' {
        s.drop_first()
    } else {
        s
    }
}

/// The unsigned 64-bit number that `s` denotes: an optional `+`, then one or
/// more digits whose value fits; `None` for any other text.
pub open spec fn unsigned_of(s: Seq<char>) -> Option<u64> {
    let d = after_plus(s);
    if d.len() > 0 && all_digits(d) && digits_value(d) <= u64::MAX {
        Some(digits_value(d) as u64)
    } else {
        None
    }
}

/// A number spelled by digits is at least the number spelled by any prefix.
pub proof fn lemma_digits_value_grows(s: Seq<char>, k: int)
    requires
        0 <= k <= s.len(),
    ensures
        digits_value(s.take(k)) <= digits_value(s),
    decreases s.len(),
{
    if k == s.len() {
        assert(s.take(k) =~= s);
    } else {
        lemma_digits_value_grows(s.drop_last(), k);
        assert(s.drop_last().take(k) =~= s.take(k));
    }
}

/// Reads an unsigned 64-bit number from `text`.
pub fn parse_unsigned(text: &str) -> (value: Option<u64>)
    ensures
        value == unsigned_of(text@),
{
    let chars = chars_of(text);
    let n = chars.len();
    let start: usize = if n > 0 && chars[0] == '+' {
        1
    } else {
        0
    };
    let ghost d = after_plus(text@);
    assert(d =~= text@.skip(start as int));
    if start == n {
        return None;
    }
    let mut acc: u64 = 0;
    let mut i: usize = start;
    while i < n
        invariant
            chars@ == text@,
            n == chars@.len(),
            start <= i <= n,
            d == text@.skip(start as int),
            d == after_plus(text@),
            all_digits(d.take(i - start)),
            acc == digits_value(d.take(i - start)),
        decreases n - i,
    {
        let c = chars[i];
        let ghost k = i - start;
        assert(d[k] == c);
        if c < '0' || c > '9' {
            assert(!is_digit(d[k]));
            return None;
        }
        let v: u64 = (c as u64) - ('0' as u64);
        proof {
            assert(d.take(k + 1).drop_last() =~= d.take(k));
            assert(d.take(k + 1).last() == c);
            assert(digits_value(d.take(k + 1)) == acc * 10 + v);
            assert forall|j: int| 0 <= j < k + 1 implies is_digit(#[trigger] d.take(k + 1)[j]) by {
                if j < k {
                    assert(d.take(k)[j] == d.take(k + 1)[j]);
                }
            }
        }
        if acc > (u64::MAX - v) / 10 {
            proof {
                lemma_digits_value_grows(d, k + 1);
                assert(acc * 10 + v > u64::MAX);
            }
            return None;
        }
        acc = acc * 10 + v;
        i += 1;
    }
    assert(d.take(i - start) =~= d);
    Some(acc)
}

/// Whether `c` is `+` or `-`.
pub open spec fn is_sign(c: char) -> bool {
    c == '+' || c == '-'
}

/// The position of the first character at or after `from` that is no digit.
pub open spec fn digits_end(s: Seq<char>, from: int) -> int
    decreases s.len() - from,
{
    if 0 <= from < s.len() && is_digit(s[from]) {
        digits_end(s, from + 1)
    } else {
        from
    }
}

/// `s` is the word `lower`, each letter in either case.
pub open spec fn spells(s: Seq<char>, lower: Seq<char>, upper: Seq<char>) -> bool {
    &&& s.len() == lower.len()
    &&& forall|i: int| 0 <= i < s.len() ==> #[trigger] s[i] == lower[i] || s[i] == upper[i]
}

/// `s` is `inf`, `infinity` or `nan`, in any mix of cases.
pub open spec fn is_special_number(s: Seq<char>) -> bool {
    ||| spells(s, seq!['i', 'n', 'f'], seq!['I', 'N', 'F'])
    ||| spells(
        s,
        seq!['i', 'n', 'f', 'i', 'n', 'i', 't', 'y'],
        seq!['I', 'N', 'F', 'I', 'N', 'I', 'T', 'Y'],
    )
    ||| spells(s, seq!['n', 'a', 'n'], seq!['N', 'A', 'N'])
}

/// From `at` to its end, `s` is an exponent: `e` or `E`, an optional sign and
/// one or more digits.
pub open spec fn is_exponent_at(s: Seq<char>, at: int) -> bool {
    &&& 0 <= at < s.len()
    &&& (s[at] == 'e' || s[at] == 'E')
    &&& {
        let digits = if at + 1 < s.len() && is_sign(s[at + 1]) {
            at + 2
        } else {
            at + 1
        };
        digits < s.len() && digits_end(s, digits) == s.len()
    }
}

/// From `start` to its end, `s` is digits with at most one `.` among them, a
/// digit on at least one side of it, and then possibly an exponent.
pub open spec fn is_plain_number_from(s: Seq<char>, start: int) -> bool {
    let whole_end = digits_end(s, start);
    let dotted = whole_end < s.len() && s[whole_end] == '.';
    let mantissa_end = if dotted {
        digits_end(s, whole_end + 1)
    } else {
        whole_end
    };
    let digit_count = if dotted {
        mantissa_end - start - 1
    } else {
        mantissa_end - start
    };
    digit_count > 0 && (mantissa_end == s.len() || is_exponent_at(s, mantissa_end))
}

/// Where the unsigned part of `s` begins: after one leading sign, if any.
pub open spec fn after_sign(s: Seq<char>) -> int {
    if s.len() > 0 && is_sign(s[0]) {
        1
    } else {
        0
    }
}

/// `s` is a decimal number as a mass-to-charge ratio or an enrichment label is
/// written: an optional sign, then `inf`, `infinity`, `nan`, or digits with an
/// optional fraction and exponent.
pub open spec fn is_number_text(s: Seq<char>) -> bool {
    let start = after_sign(s);
    is_special_number(s.skip(start)) || is_plain_number_from(s, start)
}

fn scan_digits(chars: &Vec<char>, from: usize) -> (end: usize)
    requires
        from <= chars.len(),
    ensures
        from <= end <= chars.len(),
        end == digits_end(chars@, from as int),
{
    let mut i: usize = from;
    while i < chars.len() && chars[i] >= '0' && chars[i] <= '9'
        invariant
            from <= i <= chars.len(),
            digits_end(chars@, from as int) == digits_end(chars@, i as int),
        decreases chars.len() - i,
    {
        i += 1;
    }
    i
}

fn spells_from(chars: &Vec<char>, start: usize, lower: &Vec<char>, upper: &Vec<char>) -> (yes:
    bool)
    requires
        start <= chars.len(),
        lower.len() == upper.len(),
    ensures
        yes == spells(chars@.skip(start as int), lower@, upper@),
{
    if chars.len() - start != lower.len() {
        return false;
    }
    let ghost s = chars@.skip(start as int);
    let mut i: usize = 0;
    while i < lower.len()
        invariant
            start <= chars.len(),
            s == chars@.skip(start as int),
            s.len() == lower.len() == upper.len(),
            i <= lower.len(),
            forall|j: int| 0 <= j < i ==> #[trigger] s[j] == lower[j] || s[j] == upper[j],
        decreases lower.len() - i,
    {
        let c = chars[start + i];
        assert(s[i as int] == c);
        if c != lower[i] && c != upper[i] {
            return false;
        }
        i += 1;
    }
    true
}

/// Whether `text` is a decimal number.
pub fn is_number(text: &str) -> (yes: bool)
    ensures
        yes == is_number_text(text@),
{
    let chars = chars_of(text);
    let n = chars.len();
    let start: usize = if n > 0 && (chars[0] == '+' || chars[0] == '-') {
        1
    } else {
        0
    };
    proof {
        reveal_strlit("inf");
        reveal_strlit("INF");
        reveal_strlit("infinity");
        reveal_strlit("INFINITY");
        reveal_strlit("nan");
        reveal_strlit("NAN");
        assert("inf"@ =~= seq!['i', 'n', 'f']);
        assert("INF"@ =~= seq!['I', 'N', 'F']);
        assert("infinity"@ =~= seq!['i', 'n', 'f', 'i', 'n', 'i', 't', 'y']);
        assert("INFINITY"@ =~= seq!['I', 'N', 'F', 'I', 'N', 'I', 'T', 'Y']);
        assert("nan"@ =~= seq!['n', 'a', 'n']);
        assert("NAN"@ =~= seq!['N', 'A', 'N']);
    }
    if spells_from(&chars, start, &chars_of("inf"), &chars_of("INF")) || spells_from(
        &chars,
        start,
        &chars_of("infinity"),
        &chars_of("INFINITY"),
    ) || spells_from(&chars, start, &chars_of("nan"), &chars_of("NAN")) {
        return true;
    }
    let whole_end = scan_digits(&chars, start);
    let dotted = whole_end < n && chars[whole_end] == '.';
    let mantissa_end = if dotted {
        scan_digits(&chars, whole_end + 1)
    } else {
        whole_end
    };
    let digit_count = if dotted {
        mantissa_end - start - 1
    } else {
        mantissa_end - start
    };
    if digit_count == 0 {
        return false;
    }
    if mantissa_end == n {
        return true;
    }
    if chars[mantissa_end] != 'e' && chars[mantissa_end] != 'E' {
        return false;
    }
    let digits = if mantissa_end + 1 < n && (chars[mantissa_end + 1] == '+' || chars[mantissa_end
        + 1] == '-') {
        mantissa_end + 2
    } else {
        mantissa_end + 1
    };
    digits < n && scan_digits(&chars, digits) == n
}

} // verus!
