//! Text building blocks: decimal numerals, trimming and substring search,
//! each stated over sequences of characters.

use vstd::prelude::*;
use vstd::string::*;
use vstd::utf8::*;

verus! {

/// The decimal digit `d` as a character.
pub open spec fn digit_char(d: nat) -> char {
    (48 + d) as char
}

/// The decimal numeral of `n`, without leading zeros.
pub open spec fn dec_nat(n: nat) -> Seq<char>
    decreases n,
{
    if n < 10 {
        seq![digit_char(n)]
    } else {
        dec_nat(n / 10).push(digit_char(n % 10))
    }
}

/// The decimal numeral of `n`, with a leading minus sign when `n` is negative.
pub open spec fn dec_int(n: int) -> Seq<char> {
    if n < 0 {
        seq!['-'] + dec_nat((-n) as nat)
    } else {
        dec_nat(n as nat)
    }
}

/// Whether `c` is one of `0` to `9`.
pub open spec fn is_digit(c: char) -> bool {
    48 <= c as int <= 57
}

/// Whether every character of `s` is a decimal digit.
pub open spec fn all_digits(s: Seq<char>) -> bool {
    forall|i: int| 0 <= i < s.len() ==> is_digit(#[trigger] s[i])
}

/// The number that a row of decimal digits denotes.
pub open spec fn digits_value(s: Seq<char>) -> int
    decreases s.len(),
{
    if s.len() == 0 {
        0
    } else {
        10 * digits_value(s.drop_last()) + (s.last() as int - 48)
    }
}

/// The digits of a signed numeral: everything behind one leading `+` or `-`.
pub open spec fn unsigned_part(s: Seq<char>) -> Seq<char> {
    if s.len() > 0 && (s[0] == '+' || s[0] == '-') {
        s.skip(1)
    } else {
        s
    }
}

/// The integer that the signed numeral `s` denotes.
pub open spec fn numeral_value(s: Seq<char>) -> int {
    if s.len() > 0 && s[0] == '-' {
        -digits_value(unsigned_part(s))
    } else {
        digits_value(unsigned_part(s))
    }
}

/// What parsing `s` as a 64-bit signed integer gives: an optional sign, then
/// at least one digit and nothing else, with a value that fits.
pub open spec fn parsed_i64(s: Seq<char>) -> Option<i64> {
    let digits = unsigned_part(s);
    if digits.len() > 0 && all_digits(digits) && i64::MIN <= numeral_value(s) <= i64::MAX {
        Some(numeral_value(s) as i64)
    } else {
        None
    }
}

/// Whether `c` has the Unicode property White_Space.
pub open spec fn is_whitespace(c: char) -> bool {
    let u = c as int;
    ||| 9 <= u <= 13
    ||| u == 0x20
    ||| u == 0x85
    ||| u == 0xA0
    ||| u == 0x1680
    ||| 0x2000 <= u <= 0x200A
    ||| u == 0x2028
    ||| u == 0x2029
    ||| u == 0x202F
    ||| u == 0x205F
    ||| u == 0x3000
}

/// `s` without its leading white space.
pub open spec fn trimmed_start(s: Seq<char>) -> Seq<char>
    decreases s.len(),
{
    if s.len() > 0 && is_whitespace(s[0]) {
        trimmed_start(s.drop_first())
    } else {
        s
    }
}

/// `s` without its trailing white space.
pub open spec fn trimmed_end(s: Seq<char>) -> Seq<char>
    decreases s.len(),
{
    if s.len() > 0 && is_whitespace(s.last()) {
        trimmed_end(s.drop_last())
    } else {
        s
    }
}

/// `s` without white space at either end.
pub open spec fn trimmed(s: Seq<char>) -> Seq<char> {
    trimmed_end(trimmed_start(s))
}

/// A decimal numeral is a non-empty row of digits that denotes its number.
pub proof fn lemma_dec_nat_digits(n: nat)
    ensures
        dec_nat(n).len() > 0,
        all_digits(dec_nat(n)),
        digits_value(dec_nat(n)) == n,
    decreases n,
{
    reveal_with_fuel(digits_value, 2);
    if n < 10 {
        let s = seq![digit_char(n)];
        assert(s.drop_last() =~= Seq::<char>::empty());
        assert(digits_value(s.drop_last()) == 0);
    } else {
        lemma_dec_nat_digits(n / 10);
        let s = dec_nat(n / 10);
        let t = s.push(digit_char(n % 10));
        assert(t.drop_last() =~= s);
        assert(t.last() == digit_char(n % 10));
        assert forall|i: int| 0 <= i < t.len() implies is_digit(#[trigger] t[i]) by {
            if i < s.len() {
                assert(t[i] == s[i]);
            }
        }
    }
}

/// Reading back the numeral of a 64-bit integer gives that integer.
pub proof fn lemma_parsed_dec_int(n: i64)
    ensures
        parsed_i64(dec_int(n as int)) == Some(n),
{
    let m: nat = if n < 0 {
        (-n) as nat
    } else {
        n as nat
    };
    lemma_dec_nat_digits(m);
    let s = dec_int(n as int);
    if n < 0 {
        assert(s[0] == '-');
        assert(s.skip(1) =~= dec_nat(m));
    } else {
        assert(is_digit(dec_nat(m)[0]));
        assert(s[0] != '-' && s[0] != '+');
    }
}

/// Two integers with the same numeral are the same integer.
pub proof fn lemma_dec_int_injective(a: int, b: int)
    requires
        dec_int(a) == dec_int(b),
    ensures
        a == b,
{
    let x: nat = if a < 0 { (-a) as nat } else { a as nat };
    let y: nat = if b < 0 { (-b) as nat } else { b as nat };
    lemma_dec_nat_digits(x);
    lemma_dec_nat_digits(y);
    assert(is_digit(dec_nat(x)[0]));
    assert(is_digit(dec_nat(y)[0]));
    if a < 0 {
        assert(dec_int(a)[0] == '-');
        assert(dec_int(a).skip(1) =~= dec_nat(x));
    }
    if b < 0 {
        assert(dec_int(b)[0] == '-');
        assert(dec_int(b).skip(1) =~= dec_nat(y));
    }
}

/// Appends one character; `String::push` adds the given character at the end.
#[verifier::external_body]
pub(crate) fn push_char(s: &mut String, c: char)
    ensures
        final(s)@ == old(s)@.push(c),
{
    s.push(c);
}

/// What `std::str::from_utf8` says of bytes that are no UTF-8.
pub uninterp spec fn utf8_complaint(bytes: Seq<u8>) -> Seq<char>;

/// Calls `std::str::from_utf8`: the text that the bytes encode, or the text
/// of its error when they are no valid UTF-8.
#[verifier::external_body]
pub(crate) fn utf8_text(bytes: &[u8]) -> (r: Result<&str, String>)
    ensures
        match r {
            Ok(s) => valid_utf8(bytes@) && s@ == decode_utf8(bytes@),
            Err(m) => !valid_utf8(bytes@) && m@ == utf8_complaint(bytes@),
        },
{
    std::str::from_utf8(bytes).map_err(|e| e.to_string())
}

/// What `str::parse::<i64>` says of a text that is no 64-bit integer.
pub uninterp spec fn number_complaint(text: Seq<char>) -> Seq<char>;

/// Calls `str::parse::<i64>` on a text that it refuses, and returns the text
/// of its error. Which texts it refuses is documented: all but an optional
/// sign and decimal digits whose value fits.
#[verifier::external_body]
pub(crate) fn complain_of_number(text: &str) -> (r: String)
    requires
        parsed_i64(text@) is None,
    ensures
        r@ == number_complaint(text@),
{
    text.parse::<i64>().expect_err("the text is no integer").to_string()
}

/// How `Debug` shows a text: in quotes, with escapes.
pub uninterp spec fn quoted_text(text: Seq<char>) -> Seq<char>;

/// Formats a text with `Debug`, as `{:?}` does. What it gives is a function of
/// the text alone.
#[verifier::external_body]
fn quote(text: &str) -> (r: String)
    ensures
        r@ == quoted_text(text@),
{
    format!("{text:?}")
}

/// The characters of `s`, in order.
pub fn chars_of(s: &str) -> (r: Vec<char>)
    ensures
        r@ == s@,
{
    let mut r: Vec<char> = Vec::new();
    for c in it: s.chars()
        invariant
            it.seq() == s@,
            r@ == s@.take(it.index()),
    {
        r.push(c);
        assert(r@ =~= s@.take(it.index() + 1));
    }
    assert(r@ =~= s@);
    r
}

/// Whether two texts are the same.
pub fn same_text(a: &str, b: &str) -> (r: bool)
    ensures
        r == (a@ == b@),
{
    a.to_owned() == b.to_owned()
}

/// The string made of `chars[from..to]`.
pub fn string_of(chars: &Vec<char>, from: usize, to: usize) -> (r: String)
    requires
        from <= to <= chars@.len(),
    ensures
        r@ == chars@.subrange(from as int, to as int),
{
    let mut r = String::new();
    let mut i: usize = from;
    while i < to
        invariant
            from <= i <= to <= chars@.len(),
            r@ == chars@.subrange(from as int, i as int),
        decreases to - i,
    {
        push_char(&mut r, chars[i]);
        i = i + 1;
        assert(r@ =~= chars@.subrange(from as int, i as int));
    }
    r
}

/// The decimal numeral of `n`.
pub fn dec_u64(n: u64) -> (r: String)
    ensures
        r@ == dec_nat(n as nat),
    decreases n,
{
    let d: u8 = (n % 10) as u8;
    let c: char = (48 + d) as char;
    let mut r = if n < 10 {
        String::new()
    } else {
        dec_u64(n / 10)
    };
    push_char(&mut r, c);
    assert(r@ =~= dec_nat(n as nat));
    r
}

/// The decimal numeral of `n`, signed.
pub fn dec_i64(n: i64) -> (r: String)
    ensures
        r@ == dec_int(n as int),
{
    if n < 0 {
        let m: u64 = if n == i64::MIN {
            9_223_372_036_854_775_808
        } else {
            (-n) as u64
        };
        let mut r = String::new();
        push_char(&mut r, '-');
        let digits = dec_u64(m);
        r.append(digits.as_str());
        assert(r@ =~= dec_int(n as int));
        r
    } else {
        dec_u64(n as u64)
    }
}

/// The code point of `c`.
fn code_point(c: char) -> (r: u32)
    ensures
        r == c as int,
{
    c as u32
}

/// Whether `c` is white space in the Unicode sense.
fn char_is_whitespace(c: char) -> (r: bool)
    ensures
        r == is_whitespace(c),
{
    let u: u32 = code_point(c);
    (9 <= u && u <= 13) || u == 0x20 || u == 0x85 || u == 0xA0 || u == 0x1680 || (0x2000 <= u && u
        <= 0x200A) || u == 0x2028 || u == 0x2029 || u == 0x202F || u == 0x205F || u == 0x3000
}

/// Reads `chars[from..to]` as a row of decimal digits below 2^64: `None` when
/// a character is no digit or the value does not fit.
fn parse_digits(chars: &Vec<char>, from: usize, to: usize) -> (r: Option<u64>)
    requires
        from <= to <= chars@.len(),
    ensures
        ({
            let d = chars@.subrange(from as int, to as int);
            match r {
                Some(v) => all_digits(d) && v == digits_value(d),
                None => !all_digits(d) || digits_value(d) > u64::MAX,
            }
        }),
{
    let ghost all = chars@.subrange(from as int, to as int);
    let mut v: u64 = 0;
    let mut i: usize = from;
    while i < to
        invariant
            from <= i <= to <= chars@.len(),
            all == chars@.subrange(from as int, to as int),
            all_digits(chars@.subrange(from as int, i as int)),
            v == digits_value(chars@.subrange(from as int, i as int)),
        decreases to - i,
    {
        let u: u32 = code_point(chars[i]);
        proof {
            let next = chars@.subrange(from as int, i + 1);
            assert(next.drop_last() =~= chars@.subrange(from as int, i as int));
            assert(next.last() == chars@[i as int]);
            assert(all[i - from] == chars@[i as int]);
            assert(next =~= all.take(i + 1 - from));
            lemma_digits_value_prefix(all, i + 1 - from);
        }
        if u < 48 || u > 57 {
            return None;
        }
        let d: u64 = (u - 48) as u64;
        if v > (u64::MAX - d) / 10 {
            return None;
        }
        v = v * 10 + d;
        i = i + 1;
        proof {
            let next = chars@.subrange(from as int, i as int);
            let before = chars@.subrange(from as int, i - 1);
            assert forall|k: int| 0 <= k < next.len() implies is_digit(#[trigger] next[k]) by {
                if k < before.len() {
                    assert(next[k] == before[k]);
                } else {
                    assert(next[k] == chars@[i - 1]);
                }
            }
        }
    }
    Some(v)
}

/// A row of digits denotes at least what any prefix of it denotes.
proof fn lemma_digits_value_prefix(s: Seq<char>, k: int)
    requires
        0 <= k <= s.len(),
    ensures
        all_digits(s) ==> 0 <= digits_value(s.take(k)) <= digits_value(s),
    decreases s.len() - k,
{
    if all_digits(s) {
        if k == s.len() {
            assert(s.take(k) =~= s);
            lemma_digits_value_nonneg(s);
        } else {
            lemma_digits_value_prefix(s, k + 1);
            let t = s.take(k + 1);
            assert(t.drop_last() =~= s.take(k));
            assert(t.last() == s[k]);
            assert(is_digit(s[k]));
            lemma_digits_value_nonneg(s.take(k));
        }
    }
}

proof fn lemma_digits_value_nonneg(s: Seq<char>)
    requires
        all_digits(s),
    ensures
        digits_value(s) >= 0,
    decreases s.len(),
{
    if s.len() > 0 {
        assert(all_digits(s.drop_last()));
        assert(is_digit(s.last()));
        lemma_digits_value_nonneg(s.drop_last());
    }
}

/// Where the white space at either end of `chars` ends: `chars[from..to]` is
/// what lies between.
fn trim_bounds(chars: &Vec<char>) -> (r: (usize, usize))
    ensures
        r.0 <= r.1 <= chars@.len(),
        chars@.subrange(r.0 as int, r.1 as int) == trimmed(chars@),
{
    let mut from: usize = 0;
    assert(chars@.skip(0) =~= chars@);
    while from < chars.len() && char_is_whitespace(chars[from])
        invariant
            from <= chars@.len(),
            trimmed_start(chars@) == trimmed_start(chars@.skip(from as int)),
        decreases chars@.len() - from,
    {
        proof {
            assert(chars@.skip(from as int).drop_first() =~= chars@.skip(from + 1));
        }
        from = from + 1;
    }
    let ghost head = chars@.skip(from as int);
    proof {
        assert(trimmed_start(chars@) == head);
    }
    let mut to: usize = chars.len();
    proof {
        assert(chars@.subrange(from as int, to as int) =~= head);
    }
    while from < to && char_is_whitespace(chars[to - 1])
        invariant
            from <= to <= chars@.len(),
            trimmed_end(head) == trimmed_end(chars@.subrange(from as int, to as int)),
        decreases to,
    {
        proof {
            assert(chars@.subrange(from as int, to as int).drop_last() =~= chars@.subrange(
                from as int,
                to - 1,
            ));
        }
        to = to - 1;
    }
    (from, to)
}

/// `s` without surrounding white space.
pub(crate) fn trimmed_text(s: &str) -> (r: String)
    ensures
        r@ == trimmed(s@),
{
    let chars = chars_of(s);
    let (from, to) = trim_bounds(&chars);
    string_of(&chars, from, to)
}

/// Reads `s`, without surrounding white space, as a 64-bit signed integer.
pub fn parse_trimmed_i64(s: &str) -> (r: Option<i64>)
    ensures
        r == parsed_i64(trimmed(s@)),
{
    let chars = chars_of(s);
    let (from, to) = trim_bounds(&chars);
    let ghost t = chars@.subrange(from as int, to as int);
    if from == to {
        return None;
    }
    let first: char = chars[from];
    let negative: bool = first == '-';
    let start: usize = if first == '-' || first == '+' {
        from + 1
    } else {
        from
    };
    proof {
        assert(t[0] == first);
        assert(unsigned_part(t) =~= chars@.subrange(start as int, to as int));
    }
    if start == to {
        return None;
    }
    match parse_digits(&chars, start, to) {
        None => None,
        Some(v) => {
            if negative {
                if v <= 9_223_372_036_854_775_807 {
                    Some(-(v as i64))
                } else if v == 9_223_372_036_854_775_808 {
                    Some(i64::MIN)
                } else {
                    None
                }
            } else if v <= 9_223_372_036_854_775_807 {
                Some(v as i64)
            } else {
                None
            }
        },
    }
}

/// Texts as sequences of characters.
pub open spec fn texts(s: Seq<String>) -> Seq<Seq<char>> {
    Seq::new(s.len(), |i: int| s[i]@)
}

/// `head` followed by `tail`.
pub(crate) fn joined(head: &str, tail: &str) -> (r: String)
    ensures
        r@ == head@ + tail@,
{
    let mut r = head.to_owned();
    r.append(tail);
    r
}

/// An optional text as it is shown in an error.
pub open spec fn shown_text(o: Option<String>) -> Seq<char> {
    match o {
        Some(s) => "Some("@ + quoted_text(s@) + ")"@,
        None => "None"@,
    }
}

/// An optional number as it is shown in an error.
pub open spec fn shown_number(o: Option<i64>) -> Seq<char> {
    match o {
        Some(n) => "Some("@ + dec_int(n as int) + ")"@,
        None => "None"@,
    }
}

/// An optional text as it is shown in an error.
pub(crate) fn show_text(o: &Option<String>) -> (r: String)
    ensures
        r@ == shown_text(*o),
{
    match o {
        Some(s) => {
            let mut r = joined("Some(", quote(s.as_str()).as_str());
            r.append(")");
            r
        },
        None => "None".to_owned(),
    }
}

/// An optional number as it is shown in an error.
pub(crate) fn show_number(o: Option<i64>) -> (r: String)
    ensures
        r@ == shown_number(o),
{
    match o {
        Some(n) => {
            let mut r = joined("Some(", dec_i64(n).as_str());
            r.append(")");
            r
        },
        None => "None".to_owned(),
    }
}

/// A numeral grows by one digit for each power of ten: it is made of the
/// characters `0` to `9`, the numeral of a number below ten is one of them,
/// and appending a digit to the numeral of a positive number gives that of ten
/// times the number and the digit. A negative number has the numeral of its
/// opposite behind a minus sign.
pub proof fn law_numerals_are_decimal(n: nat, d: nat)
    requires
        d < 10,
    ensures
        dec_nat(d) == seq![(0x30 + d) as char],
        n > 0 ==> dec_nat(10 * n + d) == dec_nat(n).push((0x30 + d) as char),
        dec_int(n as int) == dec_nat(n),
        n > 0 ==> dec_int(-(n as int)) == seq!['-'] + dec_nat(n),
{
    if n > 0 {
        assert((10 * n + d) / 10 == n);
        assert((10 * n + d) % 10 == d);
    }
}

/// A text that is read as an integer is made of digits, with at most one sign
/// in front of at least one digit.
pub proof fn law_only_numerals_are_read(s: Seq<char>)
    requires
        parsed_i64(s) is Some,
    ensures
        s.len() > 0,
        0x30 <= s[0] as int <= 0x39 || ((s[0] == '+' || s[0] == '-') && s.len() > 1),
        forall|i: int| 1 <= i < s.len() ==> 0x30 <= (#[trigger] s[i]) as int <= 0x39,
{
    let digits = unsigned_part(s);
    assert forall|i: int| 1 <= i < s.len() implies 0x30 <= (#[trigger] s[i]) as int <= 0x39 by {
        if s[0] == '+' || s[0] == '-' {
            assert(digits[i - 1] == s[i]);
        } else {
            assert(digits[i] == s[i]);
        }
        assert(all_digits(digits));
    }
    if !(s[0] == '+' || s[0] == '-') {
        assert(is_digit(digits[0]));
    }
}

/// An integer is read digit by digit: a single digit stands for itself, with
/// or without a plus sign, and for its opposite behind a minus sign; one more
/// digit multiplies by ten and adds, or takes away behind a minus sign; and a
/// value that 64 bits do not hold is refused.
pub proof fn law_integers_are_read_digit_by_digit(s: Seq<char>, c: char)
    requires
        0x30 <= c as int <= 0x39,
    ensures
        parsed_i64(Seq::empty()) is None,
        parsed_i64(seq![c]) == Some((c as int - 0x30) as i64),
        parsed_i64(seq!['+', c]) == Some((c as int - 0x30) as i64),
        parsed_i64(seq!['-', c]) == Some((0x30 - c as int) as i64),
        parsed_i64(s) matches Some(v) ==> {
            let w = if s[0] == '-' {
                10 * v - (c as int - 0x30)
            } else {
                10 * v + (c as int - 0x30)
            };
            parsed_i64(s.push(c)) == if i64::MIN <= w <= i64::MAX {
                Some(w as i64)
            } else {
                None
            }
        },
{
    let one = seq![c];
    let plus = seq!['+', c];
    let minus = seq!['-', c];
    reveal_with_fuel(digits_value, 3);
    assert(one.drop_last() =~= Seq::<char>::empty());
    assert(plus.skip(1) =~= one);
    assert(minus.skip(1) =~= one);
    assert(digits_value(one) == c as int - 0x30);
    if parsed_i64(s) is Some {
        let t = s.push(c);
        let digits = unsigned_part(s);
        let more = unsigned_part(t);
        assert(t[0] == s[0]);
        assert(more =~= digits.push(c));
        assert(more.drop_last() =~= digits);
        assert(digits_value(more) == 10 * digits_value(digits) + (c as int - 0x30));
        assert forall|i: int| 0 <= i < more.len() implies is_digit(#[trigger] more[i]) by {
            if i < digits.len() {
                assert(more[i] == digits[i]);
            }
        }
    }
}

/// White space is the space, what lies between tab and carriage return, and
/// the spaces and separators of Unicode; no other character of ASCII is.
pub proof fn law_white_space(c: char)
    ensures
        c as int <= 0x7F ==> (is_whitespace(c) <==> c == ' ' || c == '\t' || c == '\n' || c == '\r'
            || c as int == 0xB || c as int == 0xC),
        c as int > 0x7F ==> (is_whitespace(c) <==> c == '\u{85}' || c == '\u{A0}' || c == '\u{1680}'
            || ('\u{2000}' <= c && c <= '\u{200A}') || c == '\u{2028}' || c == '\u{2029}' || c
            == '\u{202F}' || c == '\u{205F}' || c == '\u{3000}'),
{
}

/// An optional number or text is shown between brackets, and what is absent as
/// `None`.
pub proof fn law_options_are_shown_in_brackets(n: i64, s: String)
    ensures
        shown_number(Some(n)).take(5) == "Some("@,
        shown_number(Some(n)).subrange(5, shown_number(Some(n)).len() - 1) == dec_int(n as int),
        shown_number(None) == "None"@,
        shown_text(Some(s)).take(5) == "Some("@,
        shown_text(Some(s)).subrange(5, shown_text(Some(s)).len() - 1) == quoted_text(s@),
        shown_text(None) == "None"@,
{
    reveal_strlit("Some(");
    reveal_strlit(")");
    let a = shown_number(Some(n));
    let b = shown_text(Some(s));
    assert(a.take(5) =~= "Some("@);
    assert(b.take(5) =~= "Some("@);
    assert(a.subrange(5, a.len() - 1) =~= dec_int(n as int));
    assert(b.subrange(5, b.len() - 1) =~= quoted_text(s@));
}

/// Trimming takes the white space at both ends away and nothing else.
pub proof fn law_trimming_leaves_the_middle(head: Seq<char>, s: Seq<char>, tail: Seq<char>)
    requires
        forall|i: int| 0 <= i < head.len() ==> is_whitespace(#[trigger] head[i]),
        forall|i: int| 0 <= i < tail.len() ==> is_whitespace(#[trigger] tail[i]),
        s.len() > 0 ==> !is_whitespace(s[0]) && !is_whitespace(s.last()),
    ensures
        trimmed(head + s + tail) == s,
    decreases head.len() + tail.len(),
{
    let all = head + s + tail;
    if head.len() > 0 {
        assert(all[0] == head[0]);
        assert(all.drop_first() =~= head.drop_first() + s + tail);
        assert forall|i: int| 0 <= i < head.drop_first().len() implies is_whitespace(
            #[trigger] head.drop_first()[i],
        ) by {
            assert(head.drop_first()[i] == head[i + 1]);
        }
        law_trimming_leaves_the_middle(head.drop_first(), s, tail);
    } else if s.len() == 0 {
        assert(all =~= tail);
        if tail.len() > 0 {
            assert(all[0] == tail[0]);
            assert(all.drop_first() =~= tail.drop_first());
            assert forall|i: int| 0 <= i < tail.drop_first().len() implies is_whitespace(
                #[trigger] tail.drop_first()[i],
            ) by {
                assert(tail.drop_first()[i] == tail[i + 1]);
            }
            law_trimming_leaves_the_middle(head, s, tail.drop_first());
            assert(head + s + tail.drop_first() =~= tail.drop_first());
        } else {
            assert(all =~= s);
        }
    } else {
        assert(all[0] == s[0]);
        assert(trimmed_start(all) == all);
        if tail.len() > 0 {
            assert(all.last() == tail.last());
            assert(is_whitespace(tail[tail.len() - 1]));
            assert(all.drop_last() =~= head + s + tail.drop_last());
            assert forall|i: int| 0 <= i < tail.drop_last().len() implies is_whitespace(
                #[trigger] tail.drop_last()[i],
            ) by {
                assert(tail.drop_last()[i] == tail[i]);
            }
            law_trimming_leaves_the_middle(head, s, tail.drop_last());
            assert((head + s + tail.drop_last())[0] == s[0]);
        } else {
            assert(all =~= s);
        }
    }
}

/// Texts are listed one for one and in order.
pub proof fn law_texts_are_one_for_one(s: Seq<String>)
    ensures
        texts(s).len() == s.len(),
        forall|i: int| 0 <= i < s.len() ==> #[trigger] texts(s)[i] == s[i]@,
{
}

/// Whether a text holds a part.
pub open spec fn contains_text(s: Seq<char>, part: Seq<char>) -> bool {
    exists|head: Seq<char>, tail: Seq<char>| s == #[trigger] (head + part + tail)
}

/// What stands between two texts is held by them together.
pub proof fn lemma_contains_text(head: Seq<char>, part: Seq<char>, tail: Seq<char>)
    ensures
        contains_text(head + part + tail, part),
{
}

} // verus!
