//! Text primitives with exact specifications: white space trimming, ASCII case folding, decimal
//! numerals and string comparison.

use vstd::prelude::*;

verus! {

/// `String::push` appends the given character to the end of the string.
pub assume_specification[ String::push ](s: &mut String, c: char)
    ensures
        final(s)@ == old(s)@.push(c),
;

/// The characters with the Unicode property `White_Space`.
pub open spec fn is_white_space_spec(c: char) -> bool {
    ||| '\u{0009}' <= c <= '\u{000D}'
    ||| c == '\u{0020}'
    ||| c == '\u{0085}'
    ||| c == '\u{00A0}'
    ||| c == '\u{1680}'
    ||| '\u{2000}' <= c <= '\u{200A}'
    ||| c == '\u{2028}'
    ||| c == '\u{2029}'
    ||| c == '\u{202F}'
    ||| c == '\u{205F}'
    ||| c == '\u{3000}'
}

/// `s` without its leading white space.
pub open spec fn trim_start_spec(s: Seq<char>) -> Seq<char>
    decreases s.len(),
{
    if s.len() > 0 && is_white_space_spec(s.first()) {
        trim_start_spec(s.drop_first())
    } else {
        s
    }
}

/// `s` without its trailing white space.
pub open spec fn trim_end_spec(s: Seq<char>) -> Seq<char>
    decreases s.len(),
{
    if s.len() > 0 && is_white_space_spec(s.last()) {
        trim_end_spec(s.drop_last())
    } else {
        s
    }
}

/// `s` without its leading and trailing white space.
pub open spec fn trimmed(s: Seq<char>) -> Seq<char> {
    trim_end_spec(trim_start_spec(s))
}

/// `c` with `A` to `Z` mapped to `a` to `z`.
pub open spec fn ascii_lower_char(c: char) -> char {
    if 'A' <= c <= 'Z' {
        (c as int + 32) as char
    } else {
        c
    }
}

/// `s` with `A` to `Z` mapped to `a` to `z`.
pub open spec fn ascii_lower(s: Seq<char>) -> Seq<char> {
    s.map_values(|c: char| ascii_lower_char(c))
}

/// The form in which SQL keywords are compared.
pub open spec fn keyword_form(s: Seq<char>) -> Seq<char> {
    ascii_lower(trimmed(s))
}

/// The decimal digit `d` as a character.
pub open spec fn digit_char(d: int) -> char {
    (48 + d) as char
}

/// The decimal numeral of `n`, without leading zeros.
pub open spec fn decimal(n: nat) -> Seq<char>
    decreases n,
{
    if n < 10 {
        seq![digit_char(n as int)]
    } else {
        decimal(n / 10).push(digit_char((n % 10) as int))
    }
}

/// The decimal numeral of `i`, with a minus sign when it is negative.
pub open spec fn signed_decimal(i: int) -> Seq<char> {
    if i < 0 {
        seq!['-'] + decimal((-i) as nat)
    } else {
        decimal(i as nat)
    }
}

/// Whether `c` is an ASCII decimal digit.
pub open spec fn is_digit_spec(c: char) -> bool {
    '0' <= c <= '9'
}

/// Whether every character of `s` is an ASCII decimal digit.
pub open spec fn all_digits(s: Seq<char>) -> bool {
    forall|i: int| 0 <= i < s.len() ==> is_digit_spec(#[trigger] s[i])
}

/// The number that a string of decimal digits stands for.
pub open spec fn numeral_value(s: Seq<char>) -> nat
    decreases s.len(),
{
    if s.len() == 0 {
        0
    } else {
        (numeral_value(s.drop_last()) * 10 + (s.last() as int - 48)) as nat
    }
}

/// The digits of an unsigned numeral: what follows an optional plus sign.
pub open spec fn numeral_digits(s: Seq<char>) -> Seq<char> {
    if s.len() > 0 && s[0] == '+' {
        s.drop_first()
    } else {
        s
    }
}

/// The number that `s` reads as: an optional plus sign, then one or more decimal digits whose
/// value fits 64 bits.
pub open spec fn parsed_u64(s: Seq<char>) -> Option<u64> {
    let digits = numeral_digits(s);
    if digits.len() > 0 && all_digits(digits) && numeral_value(digits) <= u64::MAX {
        Some(numeral_value(digits) as u64)
    } else {
        None
    }
}

/// Whether `c` has the Unicode property `White_Space`.
pub fn is_white_space(c: char) -> (r: bool)
    ensures
        r == is_white_space_spec(c),
{
    ('\u{0009}' <= c && c <= '\u{000D}') || c == '\u{0020}' || c == '\u{0085}' || c == '\u{00A0}'
        || c == '\u{1680}' || ('\u{2000}' <= c && c <= '\u{200A}') || c == '\u{2028}' || c
        == '\u{2029}' || c == '\u{202F}' || c == '\u{205F}' || c == '\u{3000}'
}

proof fn lemma_trim_start_skips(s: Seq<char>, i: int)
    requires
        0 <= i <= s.len(),
        forall|k: int| 0 <= k < i ==> is_white_space_spec(#[trigger] s[k]),
        i < s.len() ==> !is_white_space_spec(s[i]),
    ensures
        trim_start_spec(s) == s.skip(i),
    decreases i,
{
    if i == 0 {
        assert(s.skip(0) =~= s);
    } else {
        let rest = s.drop_first();
        assert forall|k: int| 0 <= k < i - 1 implies is_white_space_spec(#[trigger] rest[k]) by {
            assert(rest[k] == s[k + 1]);
        }
        lemma_trim_start_skips(rest, i - 1);
        assert(rest.skip(i - 1) =~= s.skip(i));
    }
}

proof fn lemma_trim_end_keeps(s: Seq<char>, j: int)
    requires
        0 <= j <= s.len(),
        forall|k: int| j <= k < s.len() ==> is_white_space_spec(#[trigger] s[k]),
        j > 0 ==> !is_white_space_spec(s[j - 1]),
    ensures
        trim_end_spec(s) == s.take(j),
    decreases s.len(),
{
    if j == s.len() {
        assert(s.take(j) =~= s);
    } else {
        let rest = s.drop_last();
        lemma_trim_end_keeps(rest, j);
        assert(rest.take(j) =~= s.take(j));
    }
}

/// `s` without its leading and trailing white space.
pub fn trim(s: &str) -> (r: &str)
    ensures
        r@ == trimmed(s@),
{
    let n: usize = s.unicode_len();
    let mut start: usize = 0;
    while start < n && is_white_space(s.get_char(start))
        invariant
            start <= n,
            n == s@.len(),
            forall|k: int| 0 <= k < start ==> is_white_space_spec(#[trigger] s@[k]),
        decreases n - start,
    {
        start += 1;
    }
    let mut end: usize = n;
    while end > start && is_white_space(s.get_char(end - 1))
        invariant
            start <= end <= n,
            n == s@.len(),
            forall|k: int| end <= k < n ==> is_white_space_spec(#[trigger] s@[k]),
        decreases end,
    {
        end -= 1;
    }
    proof {
        lemma_trim_start_skips(s@, start as int);
        let rest = s@.skip(start as int);
        let kept = end - start;
        assert forall|k: int| kept <= k < rest.len() implies is_white_space_spec(
            #[trigger] rest[k],
        ) by {
            assert(rest[k] == s@[k + start]);
        }
        lemma_trim_end_keeps(rest, kept);
        assert(rest.take(kept) =~= s@.subrange(start as int, end as int));
    }
    s.substring_char(start, end)
}

/// Whether two strings hold the same characters.
pub fn str_eq(a: &str, b: &str) -> (r: bool)
    ensures
        r == (a@ == b@),
{
    a.to_owned() == b.to_owned()
}

fn ascii_lower_of(c: char) -> (r: char)
    ensures
        r == ascii_lower_char(c),
{
    if 'A' <= c && c <= 'Z' {
        ((c as u8) + 32) as char
    } else {
        c
    }
}

/// Whether `input` is `keyword` once trimmed and folded to lower case.
pub fn is_keyword(input: &str, keyword: &str) -> (r: bool)
    ensures
        r == (keyword_form(input@) == keyword@),
{
    let word: &str = trim(input);
    let n: usize = word.unicode_len();
    if n != keyword.unicode_len() {
        return false;
    }
    let mut i: usize = 0;
    while i < n
        invariant
            i <= n,
            n == word@.len(),
            n == keyword@.len(),
            word@ == trimmed(input@),
            forall|k: int|
                0 <= k < i ==> ascii_lower_char(#[trigger] word@[k]) == keyword@[k],
        decreases n - i,
    {
        if ascii_lower_of(word.get_char(i)) != keyword.get_char(i) {
            assert(keyword_form(input@)[i as int] == ascii_lower_char(word@[i as int]));
            return false;
        }
        i += 1;
    }
    assert(keyword_form(input@) =~= keyword@);
    true
}

fn digit_of(d: u64) -> (r: char)
    requires
        d < 10,
    ensures
        r == digit_char(d as int),
{
    (48 + d as u8) as char
}

/// The decimal numeral of `n`.
pub fn u64_to_decimal(n: u64) -> (r: String)
    ensures
        r@ == decimal(n as nat),
    decreases n,
{
    let mut text: String = if n < 10 {
        String::new()
    } else {
        u64_to_decimal(n / 10)
    };
    text.push(digit_of(n % 10));
    assert(text@ =~= decimal(n as nat));
    text
}

/// The decimal numeral of `i`.
pub fn i64_to_decimal(i: i64) -> (r: String)
    ensures
        r@ == signed_decimal(i as int),
{
    if i < 0 {
        let magnitude: u64 = ((-((i + 1) as i128)) + 1) as u64;
        let mut text: String = String::new();
        text.push('-');
        assert(text@ =~= seq!['-']);
        text.append(u64_to_decimal(magnitude).as_str());
        text
    } else {
        u64_to_decimal(i as u64)
    }
}

proof fn lemma_numeral_value_prefix(s: Seq<char>, i: int)
    requires
        0 <= i <= s.len(),
        all_digits(s),
    ensures
        numeral_value(s.take(i)) <= numeral_value(s),
    decreases s.len() - i,
{
    if i == s.len() {
        assert(s.take(i) =~= s);
    } else {
        lemma_numeral_value_prefix(s, i + 1);
        assert(s.take(i + 1).drop_last() =~= s.take(i));
        assert(is_digit_spec(s[i]));
    }
}

/// The number that `s` reads as, when it is an unsigned decimal numeral that fits 64 bits.
pub fn parse_u64_text(s: &str) -> (r: Option<u64>)
    ensures
        r == parsed_u64(s@),
{
    let n: usize = s.unicode_len();
    let start: usize = if n > 0 && s.get_char(0) == '+' {
        1
    } else {
        0
    };
    let ghost digits = numeral_digits(s@);
    assert(digits =~= s@.skip(start as int));
    if start == n {
        return None;
    }
    let mut value: u64 = 0;
    let mut i: usize = start;
    assert(digits.take(0) =~= Seq::<char>::empty());
    while i < n
        invariant
            start <= i <= n,
            n == s@.len(),
            digits == numeral_digits(s@),
            digits == s@.skip(start as int),
            digits.len() > 0,
            forall|k: int| 0 <= k < i - start ==> is_digit_spec(#[trigger] digits[k]),
            value == numeral_value(digits.take(i - start)),
        decreases n - i,
    {
        let c: char = s.get_char(i);
        let ghost at = i - start;
        assert(digits[at] == c);
        if !('0' <= c && c <= '9') {
            return None;
        }
        let digit: u64 = (c as u64) - 48;
        proof {
            assert(digits.take(at + 1).drop_last() =~= digits.take(at));
            assert(numeral_value(digits.take(at + 1)) == value * 10 + digit);
        }
        if value > (u64::MAX - digit) / 10 {
            proof {
                assert(value * 10 + digit > u64::MAX);
                if all_digits(digits) {
                    lemma_numeral_value_prefix(digits, at + 1);
                }
            }
            return None;
        }
        value = value * 10 + digit;
        i += 1;
    }
    assert(digits.take(n - start) =~= digits);
    Some(value)
}

/// The string of these characters.
pub fn string_from_chars(chars: &[char]) -> (r: String)
    ensures
        r@ == chars@,
{
    let mut text: String = String::new();
    let mut i: usize = 0;
    while i < chars.len()
        invariant
            i <= chars@.len(),
            text@ == chars@.take(i as int),
        decreases chars@.len() - i,
    {
        text.push(chars[i]);
        i += 1;
        assert(chars@.take(i as int) =~= chars@.take(i - 1).push(chars@[i - 1]));
    }
    assert(chars@.take(i as int) =~= chars@);
    text
}

/// `a` followed by `b`.
pub fn join2(a: &str, b: &str) -> (r: String)
    ensures
        r@ == a@ + b@,
{
    let mut text: String = a.to_owned();
    text.append(b);
    text
}

/// `a`, `b` and `c` in a row.
pub fn join3(a: &str, b: &str, c: &str) -> (r: String)
    ensures
        r@ == a@ + b@ + c@,
{
    let mut text: String = join2(a, b);
    text.append(c);
    text
}

/// `a`, `b`, `c` and `d` in a row.
pub fn join4(a: &str, b: &str, c: &str, d: &str) -> (r: String)
    ensures
        r@ == a@ + b@ + c@ + d@,
{
    let mut text: String = join3(a, b, c);
    text.append(d);
    text
}

/// Trimming leaves a text alone that neither starts nor ends with white space.
pub proof fn lemma_trimmed_is_identity(s: Seq<char>)
    requires
        s.len() > 0 ==> !is_white_space_spec(s.first()) && !is_white_space_spec(s.last()),
    ensures
        trimmed(s) == s,
{
}

proof fn lemma_trim_start_first(s: Seq<char>)
    ensures
        trim_start_spec(s).len() > 0 ==> !is_white_space_spec(trim_start_spec(s).first()),
        trim_start_spec(s).len() <= s.len(),
        trim_start_spec(s).len() > 0 ==> trim_start_spec(s).last() == s.last(),
    decreases s.len(),
{
    if s.len() > 0 && is_white_space_spec(s.first()) {
        lemma_trim_start_first(s.drop_first());
    }
}

proof fn lemma_trim_end_last(s: Seq<char>)
    ensures
        trim_end_spec(s).len() > 0 ==> !is_white_space_spec(trim_end_spec(s).last()),
        trim_end_spec(s).len() > 0 ==> trim_end_spec(s).first() == s.first(),
        trim_end_spec(s).len() <= s.len(),
    decreases s.len(),
{
    if s.len() > 0 && is_white_space_spec(s.last()) {
        lemma_trim_end_last(s.drop_last());
    }
}

/// A trimmed text neither starts nor ends with white space, so trimming twice is trimming once.
pub proof fn lemma_trimmed_is_idempotent(s: Seq<char>)
    ensures
        trimmed(s).len() > 0 ==> !is_white_space_spec(trimmed(s).first())
            && !is_white_space_spec(trimmed(s).last()),
        trimmed(trimmed(s)) == trimmed(s),
{
    lemma_trim_start_first(s);
    lemma_trim_end_last(trim_start_spec(s));
    lemma_trimmed_is_identity(trimmed(s));
}

proof fn lemma_decimal_digits(n: nat)
    ensures
        decimal(n).len() > 0,
        all_digits(decimal(n)),
        numeral_value(decimal(n)) == n,
    decreases n,
{
    if n < 10 {
        let s = decimal(n);
        assert(s.drop_last() =~= Seq::<char>::empty());
        assert(numeral_value(s.drop_last()) == 0);
    } else {
        lemma_decimal_digits(n / 10);
        let s = decimal(n);
        assert(s.drop_last() =~= decimal(n / 10));
    }
}

/// Reading the decimal numeral of a 64-bit number gives the number back.
pub proof fn law_decimal_round_trip(n: u64)
    ensures
        parsed_u64(decimal(n as nat)) == Some(n),
{
    lemma_decimal_digits(n as nat);
    assert(is_digit_spec(decimal(n as nat)[0]));
}

proof fn lemma_trim_start_cuts(s: Seq<char>) -> (start: int)
    ensures
        0 <= start <= s.len(),
        trim_start_spec(s) == s.subrange(start, s.len() as int),
        forall|i: int| 0 <= i < start ==> is_white_space_spec(#[trigger] s[i]),
        start < s.len() ==> !is_white_space_spec(s[start]),
    decreases s.len(),
{
    if s.len() > 0 && is_white_space_spec(s.first()) {
        let rest = s.drop_first();
        let start = lemma_trim_start_cuts(rest);
        assert forall|i: int| 0 <= i < start + 1 implies is_white_space_spec(#[trigger] s[i]) by {
            if i > 0 {
                assert(s[i] == rest[i - 1]);
            }
        }
        assert(rest.subrange(start, rest.len() as int) =~= s.subrange(start + 1, s.len() as int));
        start + 1
    } else {
        assert(s.subrange(0, s.len() as int) =~= s);
        0
    }
}

proof fn lemma_trim_end_cuts(s: Seq<char>) -> (end: int)
    ensures
        0 <= end <= s.len(),
        trim_end_spec(s) == s.subrange(0, end),
        forall|i: int| end <= i < s.len() ==> is_white_space_spec(#[trigger] s[i]),
        end > 0 ==> !is_white_space_spec(s[end - 1]),
    decreases s.len(),
{
    if s.len() > 0 && is_white_space_spec(s.last()) {
        let rest = s.drop_last();
        let end = lemma_trim_end_cuts(rest);
        assert forall|i: int| end <= i < s.len() implies is_white_space_spec(#[trigger] s[i]) by {
            if i < rest.len() {
                assert(s[i] == rest[i]);
            }
        }
        assert(rest.subrange(0, end) =~= s.subrange(0, end));
        end
    } else {
        assert(s.subrange(0, s.len() as int) =~= s);
        s.len() as int
    }
}

/// A text without the white space around it is what lies between: everything before and behind it is white
/// space, and it neither begins nor ends with any. Blanks, tabs and line ends are white space; letters and
/// digits are not.
pub proof fn law_trimming_cuts_white_space_only(s: Seq<char>) -> (cut: (int, int))
    ensures
        ({
            let (start, end) = cut;
            &&& 0 <= start <= end <= s.len()
            &&& trimmed(s) == s.subrange(start, end)
            &&& forall|i: int|
                0 <= i < start || end <= i < s.len() ==> is_white_space_spec(#[trigger] s[i])
            &&& start < end ==> !is_white_space_spec(s[start]) && !is_white_space_spec(s[end - 1])
        }),
        is_white_space_spec(' ') && is_white_space_spec('\t') && is_white_space_spec('\n')
            && is_white_space_spec('\r'),
        forall|c: char|
            'a' <= c <= 'z' || 'A' <= c <= 'Z' || '0' <= c <= '9' || c == '_' || c == '-'
                ==> !is_white_space_spec(c),
        forall|c: char|
            is_white_space_spec(c) <==> 9 <= c as int <= 13 || c as int == 32 || c as int == 0x85
                || c as int == 0xA0 || c as int == 0x1680 || 0x2000 <= c as int <= 0x200A
                || c as int == 0x2028 || c as int == 0x2029 || c as int == 0x202F || c as int
                == 0x205F || c as int == 0x3000,
{
    let start = lemma_trim_start_cuts(s);
    let rest = trim_start_spec(s);
    let end = lemma_trim_end_cuts(rest);
    assert(rest.subrange(0, end) =~= s.subrange(start, start + end));
    assert forall|i: int| 0 <= i < start || start + end <= i < s.len() implies is_white_space_spec(
        #[trigger] s[i],
    ) by {
        if i >= start {
            assert(s[i] == rest[i - start]);
        }
    }
    if end > 0 {
        assert(rest[0] == s[start] && rest[end - 1] == s[start + end - 1]);
    }
    (start, start + end)
}

/// Letters are compared without regard to their case, and nothing else changes.
pub proof fn law_case_is_folded_for_letters_only(s: Seq<char>, i: int)
    requires
        0 <= i < s.len(),
    ensures
        ascii_lower(s).len() == s.len(),
        'A' <= s[i] <= 'Z' ==> ascii_lower(s)[i] as int - 'a' as int == s[i] as int - 'A' as int,
        !('A' <= s[i] <= 'Z') ==> ascii_lower(s)[i] == s[i],
{
}

/// Numbers are written and read digit by digit: the last digit is what is left of a division by ten, the
/// others are those of the quotient, and a minus sign stands before a negative number. A text is read as
/// a number exactly where it has digits only, at least one, behind an optional plus sign, and the number
/// fits.
pub proof fn law_numbers_are_written_and_read_by_digits(n: nat, s: Seq<char>, c: char)
    ensures
        decimal(n).len() > 0,
        decimal(n).last() as int == '0' as int + n % 10,
        n >= 10 ==> decimal(n).drop_last() == decimal(n / 10),
        n < 10 ==> decimal(n).len() == 1,
        n > 0 ==> signed_decimal(-n) == seq!['-'] + decimal(n),
        signed_decimal(n as int) == decimal(n),
        '0' <= c <= '9' ==> numeral_value(s.push(c)) == 10 * numeral_value(s) + (c as int
            - '0' as int),
        numeral_value(Seq::empty()) == 0,
        s.len() > 0 && s[0] != '+' ==> (parsed_u64(s) is Some <==> (forall|i: int|
            0 <= i < s.len() ==> '0' <= #[trigger] s[i] <= '9') && numeral_value(s) <= u64::MAX),
        s.len() > 0 && s[0] != '+' ==> (parsed_u64(s) matches Some(m) ==> m == numeral_value(s)),
        s.len() > 0 && s[0] == '+' ==> (parsed_u64(s) is Some <==> s.len() > 1 && (forall|i: int|
            1 <= i < s.len() ==> '0' <= #[trigger] s[i] <= '9') && numeral_value(s.drop_first())
            <= u64::MAX),
        s.len() > 0 && s[0] == '+' ==> (parsed_u64(s) matches Some(m) ==> m == numeral_value(
            s.drop_first(),
        )),
        s.len() == 0 ==> parsed_u64(s) is None,
{
    assert(s.push(c).drop_last() =~= s);
    if n >= 10 {
        assert(decimal(n).drop_last() =~= decimal(n / 10));
    }
    let digits = numeral_digits(s);
    if s.len() > 0 && s[0] == '+' {
        assert forall|i: int| 1 <= i < s.len() implies s[i] == #[trigger] digits[i - 1] by {}
        if all_digits(digits) {
            assert forall|i: int| 1 <= i < s.len() implies '0' <= #[trigger] s[i] <= '9' by {
                assert(is_digit_spec(digits[i - 1]));
            }
        }
        if forall|i: int| 1 <= i < s.len() ==> '0' <= #[trigger] s[i] <= '9' {
            assert forall|i: int| 0 <= i < digits.len() implies is_digit_spec(
                #[trigger] digits[i],
            ) by {
                assert('0' <= s[i + 1] <= '9');
            }
        }
    } else if s.len() > 0 {
        if all_digits(s) {
            assert forall|i: int| 0 <= i < s.len() implies '0' <= #[trigger] s[i] <= '9' by {
                assert(is_digit_spec(s[i]));
            }
        }
    }
}

} // verus!
