//! Text: decimal and hexadecimal numerals, words, trimming, parsing, paths.

use vstd::prelude::*;
use vstd::string::*;
use vstd::utf8::*;

verus! {

// ── Concatenation ────────────────────────────────────────────────────────────

/// `a` followed by `b`.
pub fn cat(a: &str, b: &str) -> (text: String)
    ensures
        text@ == a@ + b@,
{
    a.to_owned().concat(b)
}

/// `a`, `b` and `c` in turn.
pub fn cat3(a: &str, b: &str, c: &str) -> (text: String)
    ensures
        text@ == a@ + b@ + c@,
{
    a.to_owned().concat(b).concat(c)
}

// ── Numerals ─────────────────────────────────────────────────────────────────

/// The hexadecimal digit of `d`, in lower case.
pub open spec fn digit_char(d: int) -> char
    recommends
        0 <= d < 16,
{
    if d < 10 {
        (('0' as int) + d) as char
    } else {
        (('a' as int) + (d - 10)) as char
    }
}

/// The decimal numeral of `n`, without leading zeros.
pub open spec fn decimal(n: nat) -> Seq<char>
    decreases n,
{
    if n < 10 {
        seq![digit_char(n as int)]
    } else {
        decimal(n / 10).push(digit_char((n % 10) as int))
    }
}

/// The two hexadecimal digits of a byte.
pub open spec fn hex_pair(b: u8) -> Seq<char> {
    seq![digit_char(b as int / 16), digit_char(b as int % 16)]
}

/// A digit tells its value.
pub proof fn lemma_digit_char_tells(d: int, e: int)
    requires
        0 <= d < 16,
        0 <= e < 16,
    ensures
        digit_char(d) == digit_char(e) <==> d == e,
{
}

fn digit_text(d: u8) -> (text: &'static str)
    requires
        d < 16,
    ensures
        text@ == seq![digit_char(d as int)],
{
    proof {
        reveal_strlit("0");
        reveal_strlit("1");
        reveal_strlit("2");
        reveal_strlit("3");
        reveal_strlit("4");
        reveal_strlit("5");
        reveal_strlit("6");
        reveal_strlit("7");
        reveal_strlit("8");
        reveal_strlit("9");
        reveal_strlit("a");
        reveal_strlit("b");
        reveal_strlit("c");
        reveal_strlit("d");
        reveal_strlit("e");
        reveal_strlit("f");
    }
    match d {
        0 => "0",
        1 => "1",
        2 => "2",
        3 => "3",
        4 => "4",
        5 => "5",
        6 => "6",
        7 => "7",
        8 => "8",
        9 => "9",
        10 => "a",
        11 => "b",
        12 => "c",
        13 => "d",
        14 => "e",
        _ => "f",
    }
}

/// The decimal numeral of `n`.
pub fn decimal_text(n: u64) -> (text: String)
    ensures
        text@ == decimal(n as nat),
    decreases n,
{
    let last = digit_text((n % 10) as u8);
    if n < 10 {
        last.to_owned()
    } else {
        decimal_text(n / 10).concat(last)
    }
}

/// The two lower-case hexadecimal digits of `b`.
pub fn hex_pair_text(b: u8) -> (text: String)
    ensures
        text@ == hex_pair(b),
{
    cat(digit_text(b / 16), digit_text(b % 16))
}

// ── Characters ───────────────────────────────────────────────────────────────

/// The characters of `text`.
pub fn chars_of(text: &str) -> (chars: Vec<char>)
    ensures
        chars@ == text@,
{
    let mut chars: Vec<char> = Vec::new();
    for c in iter: text.chars()
        invariant
            iter.seq() == text@,
            chars@ == text@.take(iter.index() as int),
    {
        chars.push(c);
    }
    chars
}

/// The characters with the Unicode `White_Space` property.
pub open spec fn is_space(c: char) -> bool {
    ||| 0x9 <= c as u32 <= 0xd
    ||| c as u32 == 0x20
    ||| c as u32 == 0x85
    ||| c as u32 == 0xa0
    ||| c as u32 == 0x1680
    ||| 0x2000 <= c as u32 <= 0x200a
    ||| c as u32 == 0x2028
    ||| c as u32 == 0x2029
    ||| c as u32 == 0x202f
    ||| c as u32 == 0x205f
    ||| c as u32 == 0x3000
}

/// Whether `c` is white space.
pub fn is_space_char(c: char) -> (space: bool)
    ensures
        space == is_space(c),
{
    let code: u32 = c as u32;
    (0x9 <= code && code <= 0xd) || code == 0x20 || code == 0x85 || code == 0xa0 || code == 0x1680
        || (0x2000 <= code && code <= 0x200a) || code == 0x2028 || code == 0x2029 || code == 0x202f
        || code == 0x205f || code == 0x3000
}

/// `s` without its leading white space.
pub open spec fn trim_start(s: Seq<char>) -> Seq<char>
    decreases s.len(),
{
    if s.len() > 0 && is_space(s[0]) {
        trim_start(s.drop_first())
    } else {
        s
    }
}

/// `s` without its trailing white space.
pub open spec fn trim_end(s: Seq<char>) -> Seq<char>
    decreases s.len(),
{
    if s.len() > 0 && is_space(s.last()) {
        trim_end(s.drop_last())
    } else {
        s
    }
}

/// `s` without white space at either end.
pub open spec fn trimmed(s: Seq<char>) -> Seq<char> {
    trim_end(trim_start(s))
}

/// The position from `from` on of the first character of `chars` that is no white space.
fn skip_space(chars: &Vec<char>, from: usize) -> (at: usize)
    requires
        from <= chars@.len(),
    ensures
        from <= at <= chars@.len(),
        chars@.skip(at as int) == trim_start(chars@.skip(from as int)),
{
    let mut at: usize = from;
    while at < chars.len() && is_space_char(chars[at])
        invariant
            from <= at <= chars@.len(),
            trim_start(chars@.skip(from as int)) == trim_start(chars@.skip(at as int)),
        decreases chars@.len() - at,
    {
        assert(chars@.skip(at as int).drop_first() =~= chars@.skip(at as int + 1));
        at = at + 1;
    }
    at
}

/// The position from `from` on of the first white space of `chars`, or its end.
fn skip_word(chars: &Vec<char>, from: usize) -> (at: usize)
    requires
        from <= chars@.len(),
    ensures
        from <= at <= chars@.len(),
        chars@.subrange(from as int, at as int) == first_word(chars@.skip(from as int)),
{
    let mut at: usize = from;
    while at < chars.len() && !is_space_char(chars[at])
        invariant
            from <= at <= chars@.len(),
            first_word(chars@.skip(from as int)) == chars@.subrange(from as int, at as int)
                + first_word(chars@.skip(at as int)),
        decreases chars@.len() - at,
    {
        assert(chars@.skip(at as int).drop_first() =~= chars@.skip(at as int + 1));
        assert(chars@.subrange(from as int, at as int) + seq![chars@[at as int]]
            =~= chars@.subrange(from as int, at as int + 1));
        assert(first_word(chars@.skip(from as int)) =~= chars@.subrange(from as int, at as int + 1)
            + first_word(chars@.skip(at as int + 1)));
        at = at + 1;
    }
    at
}

/// `text` without white space at either end.
pub fn trim_text(text: &str) -> (res: String)
    ensures
        res@ == trimmed(text@),
{
    let chars = chars_of(text);
    assert(text@.skip(0) =~= text@);
    let from: usize = skip_space(&chars, 0);
    let mut to: usize = chars.len();
    assert(text@.subrange(from as int, to as int) =~= text@.skip(from as int));
    while from < to && is_space_char(chars[to - 1])
        invariant
            from <= to <= chars@.len(),
            chars@ == text@,
            trimmed(text@) == trim_end(text@.subrange(from as int, to as int)),
        decreases to,
    {
        assert(text@.subrange(from as int, to as int).drop_last() =~= text@.subrange(
            from as int,
            to as int - 1,
        ));
        to = to - 1;
    }
    text.substring_char(from, to).to_owned()
}

/// The part of `s` before its first white space.
pub open spec fn first_word(s: Seq<char>) -> Seq<char>
    decreases s.len(),
{
    if s.len() > 0 && !is_space(s[0]) {
        seq![s[0]] + first_word(s.drop_first())
    } else {
        Seq::empty()
    }
}

/// The maximal runs of characters other than white space in `s`, in order.
pub open spec fn words(s: Seq<char>) -> Seq<Seq<char>>
    decreases s.len(),
{
    let t = trim_start(s);
    if t.len() == 0 {
        Seq::empty()
    } else {
        proof {
            lemma_trim_start(s);
            lemma_first_word(t);
        }
        seq![first_word(t)] + words(t.skip(first_word(t).len() as int))
    }
}

/// What `trim_start` leaves is the end of `s` from its first character that is no white space.
pub proof fn lemma_trim_start(s: Seq<char>)
    ensures
        trim_start(s).len() <= s.len(),
        trim_start(s) == s.skip(s.len() - trim_start(s).len()),
        trim_start(s).len() > 0 ==> !is_space(trim_start(s)[0]),
        forall|i: int| 0 <= i < s.len() - trim_start(s).len() ==> is_space(#[trigger] s[i]),
    decreases s.len(),
{
    if s.len() > 0 && is_space(s[0]) {
        let rest = s.drop_first();
        lemma_trim_start(rest);
        assert forall|i: int| 0 <= i < s.len() - trim_start(s).len() implies is_space(
            #[trigger] s[i],
        ) by {
            if i > 0 {
                assert(rest[i - 1] == s[i]);
            }
        }
        assert(trim_start(s) =~= s.skip(s.len() - trim_start(s).len()));
    } else {
        assert(s =~= s.skip(0));
    }
}

/// The first word of `s` is the start of `s` up to a white space or the end.
pub proof fn lemma_first_word(s: Seq<char>)
    ensures
        first_word(s).len() <= s.len(),
        first_word(s) == s.take(first_word(s).len() as int),
        first_word(s).len() < s.len() ==> is_space(s[first_word(s).len() as int]),
        forall|i: int| 0 <= i < first_word(s).len() ==> !is_space(#[trigger] s[i]),
        s.len() > 0 && !is_space(s[0]) ==> first_word(s).len() > 0,
    decreases s.len(),
{
    if s.len() > 0 && !is_space(s[0]) {
        let rest = s.drop_first();
        lemma_first_word(rest);
        assert forall|i: int| 0 <= i < first_word(s).len() implies !is_space(#[trigger] s[i]) by {
            if i > 0 {
                assert(rest[i - 1] == s[i]);
            }
        }
        assert(first_word(s) =~= s.take(first_word(s).len() as int));
    } else {
        assert(first_word(s) =~= s.take(0));
    }
}

/// The first word of `s` ends where its first white space stands.
pub proof fn lemma_first_word_ends(s: Seq<char>, n: int)
    requires
        0 <= n <= s.len(),
        forall|i: int| 0 <= i < n ==> !is_space(#[trigger] s[i]),
        n < s.len() ==> is_space(s[n]),
    ensures
        first_word(s) == s.take(n),
{
    lemma_first_word(s);
    let m = first_word(s).len() as int;
    if m < n {
        assert(is_space(s[m]));
    }
    if n < m {
        assert(!is_space(s[n]));
    }
}

/// The second word of `text`, if it has two.
pub fn second_word(text: &str) -> (word: Option<String>)
    ensures
        match word {
            Some(w) => words(text@).len() > 1 && w@ == words(text@)[1],
            None => words(text@).len() <= 1,
        },
{
    let chars = chars_of(text);
    assert(text@.skip(0) =~= text@);
    let first: usize = skip_space(&chars, 0);
    if first == chars.len() {
        return None;
    }
    let first_end: usize = skip_word(&chars, first);
    let second: usize = skip_space(&chars, first_end);
    let ghost rest = chars@.skip(first_end as int);
    proof {
        lemma_trim_start(text@);
        lemma_first_word(text@.skip(first as int));
        assert(text@.skip(first as int).skip(first_end - first) =~= rest);
        assert(words(text@) == seq![first_word(text@.skip(first as int))] + words(rest));
    }
    if second == chars.len() {
        assert(words(rest) =~= Seq::empty());
        return None;
    }
    let second_end: usize = skip_word(&chars, second);
    assert(words(rest)[0] == first_word(chars@.skip(second as int)));
    assert(words(text@)[1] == words(rest)[0]);
    Some(text.substring_char(second, second_end).to_owned())
}

/// What follows the first occurrence of `pattern` in `s`, if it occurs.
pub open spec fn after_first(s: Seq<char>, pattern: Seq<char>) -> Option<Seq<char>>
    decreases s.len(),
{
    if s.len() < pattern.len() {
        None
    } else if s.take(pattern.len() as int) == pattern {
        Some(s.skip(pattern.len() as int))
    } else if s.len() == 0 {
        None
    } else {
        after_first(s.drop_first(), pattern)
    }
}

/// Whether `pattern` stands in `chars` at position `at`.
fn occurs_at(chars: &Vec<char>, at: usize, pattern: &Vec<char>) -> (occurs: bool)
    requires
        at + pattern@.len() <= chars@.len(),
    ensures
        occurs == (chars@.skip(at as int).take(pattern@.len() as int) == pattern@),
{
    let mut i: usize = 0;
    while i < pattern.len()
        invariant
            i <= pattern@.len(),
            at + pattern@.len() <= chars.len(),
            forall|j: int| 0 <= j < i ==> chars@[at + j] == #[trigger] pattern@[j],
        decreases pattern@.len() - i,
    {
        if chars[at + i] != pattern[i] {
            assert(chars@.skip(at as int).take(pattern@.len() as int)[i as int] != pattern@[i as int]);
            return false;
        }
        i = i + 1;
    }
    assert(chars@.skip(at as int).take(pattern@.len() as int) =~= pattern@);
    true
}

/// What follows the first occurrence of `pattern` in `text`, if it occurs.
pub fn after_first_text(text: &str, pattern: &str) -> (rest: Option<String>)
    ensures
        match rest {
            Some(r) => after_first(text@, pattern@) == Some(r@),
            None => after_first(text@, pattern@) is None,
        },
{
    let chars = chars_of(text);
    let wanted = chars_of(pattern);
    let mut at: usize = 0;
    assert(text@.skip(0) =~= text@);
    while wanted.len() <= chars.len() - at
        invariant
            at <= chars@.len(),
            chars@ == text@,
            wanted@ == pattern@,
            after_first(text@, pattern@) == after_first(text@.skip(at as int), pattern@),
        decreases chars@.len() - at,
    {
        if occurs_at(&chars, at, &wanted) {
            assert(text@.skip(at as int).skip(wanted@.len() as int) =~= text@.subrange(
                at + wanted@.len(),
                text@.len() as int,
            ));
            return Some(text.substring_char(at + wanted.len(), chars.len()).to_owned());
        }
        if at == chars.len() {
            assert(text@.skip(at as int).take(0) =~= pattern@);
            return None;
        }
        assert(text@.skip(at as int).drop_first() =~= text@.skip(at as int + 1));
        at = at + 1;
    }
    None
}

// ── Unsigned numbers ─────────────────────────────────────────────────────────

/// Why a text is no unsigned number of the wanted size.
#[derive(Clone, Copy, PartialEq, Eq, Debug, Structural)]
pub enum ParseFailure {
    /// The text is empty.
    Empty,
    /// A character other than a decimal digit stands where a digit must.
    InvalidDigit,
    /// The digits read so far already exceed the largest value.
    TooLarge,
}

/// The value of a decimal digit.
pub open spec fn digit_value(c: char) -> Option<nat> {
    if '0' <= c <= '9' {
        Some((c as int - '0' as int) as nat)
    } else {
        None
    }
}

/// The number that `digits` continue, when the digits before them make `value`.
pub open spec fn parse_digits(digits: Seq<char>, value: nat, max: nat) -> Result<nat, ParseFailure>
    decreases digits.len(),
{
    if digits.len() == 0 {
        Ok(value)
    } else {
        match digit_value(digits[0]) {
            None => Err(ParseFailure::InvalidDigit),
            Some(d) => if value * 10 + d > max {
                Err(ParseFailure::TooLarge)
            } else {
                parse_digits(digits.drop_first(), value * 10 + d, max)
            },
        }
    }
}

/// The unsigned number, at most `max`, that `s` writes: decimal digits, with a `+` before them
/// or not. The first character that is at fault decides the failure.
pub open spec fn parse_unsigned(s: Seq<char>, max: nat) -> Result<nat, ParseFailure> {
    if s.len() == 0 {
        Err(ParseFailure::Empty)
    } else if s[0] == '+' && s.len() > 1 {
        parse_digits(s.drop_first(), 0, max)
    } else {
        parse_digits(s, 0, max)
    }
}

/// Reads the unsigned number, at most `max`, that `text` writes.
pub fn parse_unsigned_text(text: &str, max: u64) -> (parsed: Result<u64, ParseFailure>)
    ensures
        match parsed {
            Ok(n) => parse_unsigned(text@, max as nat) == Ok::<nat, ParseFailure>(n as nat),
            Err(e) => parse_unsigned(text@, max as nat) == Err::<nat, ParseFailure>(e),
        },
{
    let chars = chars_of(text);
    if chars.len() == 0 {
        return Err(ParseFailure::Empty);
    }
    let mut at: usize = 0;
    if chars[0] == '+' && chars.len() > 1 {
        at = 1;
        assert(text@.drop_first() =~= text@.skip(1));
    }
    assert(text@.skip(0) =~= text@);
    let mut value: u64 = 0;
    while at < chars.len()
        invariant
            at <= chars@.len(),
            chars@ == text@,
            value <= max,
            parse_unsigned(text@, max as nat) == parse_digits(
                text@.skip(at as int),
                value as nat,
                max as nat,
            ),
        decreases chars@.len() - at,
    {
        let c = chars[at];
        assert(text@.skip(at as int)[0] == c);
        assert(text@.skip(at as int).drop_first() =~= text@.skip(at as int + 1));
        if c < '0' || '9' < c {
            return Err(ParseFailure::InvalidDigit);
        }
        let d: u64 = (c as u32 - '0' as u32) as u64;
        if value > (u64::MAX - d) / 10 || value * 10 + d > max {
            return Err(ParseFailure::TooLarge);
        }
        value = value * 10 + d;
        at = at + 1;
    }
    Ok(value)
}

/// What is read is at most `max`.
pub proof fn lemma_parse_unsigned_bound(s: Seq<char>, max: nat)
    ensures
        match parse_unsigned(s, max) {
            Ok(n) => n <= max,
            Err(_) => true,
        },
{
    if s.len() > 0 {
        lemma_parse_digits_bound(s, 0, max);
        lemma_parse_digits_bound(s.drop_first(), 0, max);
    }
}

proof fn lemma_parse_digits_bound(digits: Seq<char>, value: nat, max: nat)
    requires
        value <= max,
    ensures
        match parse_digits(digits, value, max) {
            Ok(n) => n <= max,
            Err(_) => true,
        },
    decreases digits.len(),
{
    if digits.len() > 0 && digit_value(digits[0]) is Some {
        let next = value * 10 + digit_value(digits[0]).unwrap();
        if next <= max {
            lemma_parse_digits_bound(digits.drop_first(), next, max);
        }
    }
}

/// The text that tells a parse failure.
pub open spec fn parse_failure_message(failure: ParseFailure) -> Seq<char> {
    match failure {
        ParseFailure::Empty => "cannot parse integer from empty string"@,
        ParseFailure::InvalidDigit => "invalid digit found in string"@,
        ParseFailure::TooLarge => "number too large to fit in target type"@,
    }
}

/// The text that tells `failure`.
pub fn parse_failure_text(failure: ParseFailure) -> (text: &'static str)
    ensures
        text@ == parse_failure_message(failure),
{
    match failure {
        ParseFailure::Empty => "cannot parse integer from empty string",
        ParseFailure::InvalidDigit => "invalid digit found in string",
        ParseFailure::TooLarge => "number too large to fit in target type",
    }
}

/// Every character of a decimal numeral is a digit.
pub proof fn lemma_decimal_digits(n: nat)
    ensures
        decimal(n).len() > 0,
        forall|i: int|
            0 <= i < decimal(n).len() ==> '0' <= #[trigger] decimal(n)[i] <= '9',
    decreases n,
{
    if n >= 10 {
        lemma_decimal_digits(n / 10);
    }
}

proof fn lemma_parse_digits_push(digits: Seq<char>, c: char, value: nat, max: nat, n: nat)
    requires
        parse_digits(digits, value, max) == Ok::<nat, ParseFailure>(n),
        digit_value(c) is Some,
        n * 10 + digit_value(c)->0 <= max,
    ensures
        parse_digits(digits.push(c), value, max) == Ok::<nat, ParseFailure>(
            n * 10 + digit_value(c)->0,
        ),
    decreases digits.len(),
{
    let longer = digits.push(c);
    if digits.len() == 0 {
        assert(longer.drop_first() =~= Seq::empty());
        assert(longer[0] == c);
        assert(parse_digits(longer.drop_first(), value * 10 + digit_value(c)->0, max) == Ok::<
            nat,
            ParseFailure,
        >(value * 10 + digit_value(c)->0));
    } else {
        let next = value * 10 + digit_value(digits[0])->0;
        assert(longer[0] == digits[0]);
        assert(longer.drop_first() =~= digits.drop_first().push(c));
        lemma_parse_digits_push(digits.drop_first(), c, next, max, n);
    }
}

proof fn lemma_parse_digits_decimal(n: nat, max: nat)
    requires
        n <= max,
    ensures
        parse_digits(decimal(n), 0, max) == Ok::<nat, ParseFailure>(n),
    decreases n,
{
    if n < 10 {
        let c = digit_char(n as int);
        assert(decimal(n) =~= Seq::<char>::empty().push(c));
        lemma_parse_digits_push(Seq::empty(), c, 0, max, 0);
    } else {
        lemma_parse_digits_decimal(n / 10, max);
        lemma_parse_digits_push(decimal(n / 10), digit_char((n % 10) as int), 0, max, n / 10);
    }
}

/// Reading the decimal numeral of a number gives the number back.
pub proof fn law_parse_reads_decimal(n: nat, max: nat)
    requires
        n <= max,
    ensures
        parse_unsigned(decimal(n), max) == Ok::<nat, ParseFailure>(n),
{
    lemma_decimal_digits(n);
    lemma_parse_digits_decimal(n, max);
    assert('0' <= decimal(n)[0]);
}

// ── Lists of texts ───────────────────────────────────────────────────────────

/// The contents of a list of strings.
pub open spec fn texts(list: Seq<String>) -> Seq<Seq<char>> {
    list.map_values(|s: String| s@)
}

/// `parts` with one space between each two.
pub open spec fn spaced(parts: Seq<Seq<char>>) -> Seq<char>
    decreases parts.len(),
{
    if parts.len() == 0 {
        Seq::empty()
    } else if parts.len() == 1 {
        parts[0]
    } else {
        spaced(parts.drop_last()) + " "@ + parts.last()
    }
}

/// `parts` with one space between each two.
pub fn spaced_text(parts: &Vec<String>) -> (text: String)
    ensures
        text@ == spaced(texts(parts@)),
{
    let mut text = String::new();
    let mut i: usize = 0;
    assert(texts(parts@).take(0) =~= Seq::empty());
    while i < parts.len()
        invariant
            i <= parts@.len(),
            text@ == spaced(texts(parts@).take(i as int)),
        decreases parts@.len() - i,
    {
        let ghost upto = texts(parts@).take(i as int + 1);
        assert(upto.drop_last() =~= texts(parts@).take(i as int));
        assert(upto.last() == parts@[i as int]@);
        if i > 0 {
            text.append(" ");
        }
        text.append(parts[i].as_str());
        assert(text@ =~= spaced(upto));
        i = i + 1;
    }
    assert(texts(parts@).take(i as int) =~= texts(parts@));
    text
}

// ── Paths ────────────────────────────────────────────────────────────────────

/// The path of `name` seen from the directory `base`: an absolute `name` stands for itself.
pub open spec fn joined(base: Seq<char>, name: Seq<char>) -> Seq<char> {
    if name.len() > 0 && name[0] == '/' {
        name
    } else if base.len() == 0 || base.last() == '/' {
        base + name
    } else {
        base + "/"@ + name
    }
}

/// The path of `name` seen from the directory `base`.
pub fn join_path(base: &str, name: &str) -> (path: String)
    ensures
        path@ == joined(base@, name@),
{
    let base_len: usize = base.unicode_len();
    if name.unicode_len() > 0 && name.get_char(0) == '/' {
        name.to_owned()
    } else if base_len == 0 || base.get_char(base_len - 1) == '/' {
        cat(base, name)
    } else {
        cat3(base, "/", name)
    }
}

// ── Bytes ────────────────────────────────────────────────────────────────────

/// What `String::from_utf8_lossy` makes of `bytes`.
pub uninterp spec fn lossy(bytes: Seq<u8>) -> Seq<char>;

/// `String::from_utf8_lossy`: the text that `bytes` encode in UTF-8. Valid UTF-8 is decoded as
/// it stands, and U+FFFD stands for what is invalid; for how much of it each one stands is not
/// said here.
#[verifier::external_body]
pub(crate) fn lossy_text(bytes: &[u8]) -> (text: String)
    ensures
        text@ == lossy(bytes@),
        valid_utf8(bytes@) ==> text@ == decode_utf8(bytes@),
        !valid_utf8(bytes@) ==> text@.contains('\u{fffd}'),
{
    String::from_utf8_lossy(bytes).into_owned()
}

// ── Laws ─────────────────────────────────────────────────────────────────────

/// The digits are those of `0123456789abcdef`, by their value.
pub proof fn law_digits(d: int)
    requires
        0 <= d < 16,
    ensures
        digit_char(d) == "0123456789abcdef"@[d],
{
    reveal_strlit("0123456789abcdef");
    let all = "0123456789abcdef"@;
    assert(all[0] == '0' && all[1] == '1' && all[2] == '2' && all[3] == '3' && all[4] == '4'
        && all[5] == '5' && all[6] == '6' && all[7] == '7' && all[8] == '8' && all[9] == '9');
    assert(all[10] == 'a' && all[11] == 'b' && all[12] == 'c' && all[13] == 'd' && all[14] == 'e'
        && all[15] == 'f');
}

/// A number below ten is written as its digit, and ten times a number and a digit as the number
/// followed by the digit.
pub proof fn law_decimal_is_positional(n: nat, d: nat)
    requires
        d < 10,
    ensures
        decimal(d) == seq!["0123456789"@[d as int]],
        n > 0 ==> decimal(10 * n + d) == decimal(n).push("0123456789"@[d as int]),
{
    reveal_strlit("0123456789");
    let all = "0123456789"@;
    assert(all[0] == '0' && all[1] == '1' && all[2] == '2' && all[3] == '3' && all[4] == '4'
        && all[5] == '5' && all[6] == '6' && all[7] == '7' && all[8] == '8' && all[9] == '9');
    if n > 0 {
        assert((10 * n + d) / 10 == n && (10 * n + d) % 10 == d);
    }
}

/// Different numbers are written differently.
pub proof fn law_decimal_tells(a: nat, b: nat)
    ensures
        decimal(a) == decimal(b) <==> a == b,
{
    let max = a + b;
    law_parse_reads_decimal(a, max);
    law_parse_reads_decimal(b, max);
}

/// A byte in hexadecimal is its high digit and its low digit.
pub proof fn law_hex_pair(b: u8)
    ensures
        hex_pair(b) == seq![
            "0123456789abcdef"@[b as int / 16],
            "0123456789abcdef"@[b as int % 16],
        ],
{
    law_digits(b as int / 16);
    law_digits(b as int % 16);
}

proof fn lemma_trim_end(s: Seq<char>)
    ensures
        trim_end(s).len() <= s.len(),
        trim_end(s) == s.take(trim_end(s).len() as int),
        trim_end(s).len() > 0 ==> !is_space(trim_end(s).last()),
        forall|i: int| trim_end(s).len() <= i < s.len() ==> is_space(#[trigger] s[i]),
    decreases s.len(),
{
    if s.len() > 0 && is_space(s.last()) {
        let rest = s.drop_last();
        lemma_trim_end(rest);
        assert forall|i: int| trim_end(s).len() <= i < s.len() implies is_space(
            #[trigger] s[i],
        ) by {
            if i < s.len() - 1 {
                assert(rest[i] == s[i]);
            }
        }
        assert(trim_end(s) =~= s.take(trim_end(s).len() as int));
    } else {
        assert(s =~= s.take(s.len() as int));
    }
}

/// Trimming takes white space from both ends, all of it and nothing else.
pub proof fn law_trimming(s: Seq<char>)
    ensures
        trimmed(s).len() > 0 ==> !is_space(trimmed(s)[0]) && !is_space(trimmed(s).last()),
        exists|from: int, to: int|
            {
                &&& 0 <= from <= to <= s.len()
                &&& trimmed(s) == #[trigger] s.subrange(from, to)
                &&& forall|i: int| 0 <= i < from ==> is_space(#[trigger] s[i])
                &&& forall|i: int| to <= i < s.len() ==> is_space(#[trigger] s[i])
            },
{
    let t = trim_start(s);
    let u = trimmed(s);
    lemma_trim_start(s);
    lemma_trim_end(t);
    let from = s.len() - t.len();
    let to = from + u.len();
    assert(u =~= s.subrange(from, to));
    assert forall|i: int| to <= i < s.len() implies is_space(#[trigger] s[i]) by {
        assert(t[i - from] == s[i]);
    }
    if u.len() > 0 {
        assert(u[0] == t[0]);
    }
}

/// White space alone has no words. White space, then a word that ends where the text does, has
/// that word. White space, a word, a white space and a text have that word and the text's words.
pub proof fn law_words(lead: Seq<char>, word: Seq<char>, c: char, rest: Seq<char>)
    requires
        forall|i: int| 0 <= i < lead.len() ==> is_space(#[trigger] lead[i]),
        forall|i: int| 0 <= i < word.len() ==> !is_space(#[trigger] word[i]),
        word.len() > 0,
        is_space(c),
    ensures
        words(lead) == Seq::<Seq<char>>::empty(),
        words(lead + word) == seq![word],
        words(lead + word + seq![c] + rest) == seq![word] + words(rest),
{
    lemma_trim_start_skips(lead, Seq::empty());
    assert(lead + Seq::<char>::empty() =~= lead);
    assert(trim_start(lead) =~= Seq::empty());
    assert(words(lead) =~= Seq::empty());
    // A word to the end.
    lemma_trim_start_skips(lead, word);
    lemma_first_word_ends(word, word.len() as int);
    assert(word.take(word.len() as int) =~= word);
    assert(word.skip(word.len() as int) =~= Seq::empty());
    assert(words(Seq::<char>::empty()) =~= Seq::empty());
    assert(words(lead + word) =~= seq![word]);
    // A word and more.
    let tail = word + seq![c] + rest;
    let n = word.len() as int;
    assert(lead + word + seq![c] + rest =~= lead + tail);
    assert(tail[0] == word[0]);
    lemma_trim_start_skips(lead, tail);
    assert forall|i: int| 0 <= i < n implies !is_space(#[trigger] tail[i]) by {
        assert(tail[i] == word[i]);
    }
    lemma_first_word_ends(tail, n);
    assert(tail.take(n) =~= word);
    assert(tail.skip(n) =~= seq![c] + rest);
    assert((seq![c] + rest).drop_first() =~= rest);
    assert(trim_start(seq![c] + rest) == trim_start(rest));
    assert(words(seq![c] + rest) == words(rest));
}

proof fn lemma_trim_start_skips(lead: Seq<char>, s: Seq<char>)
    requires
        forall|i: int| 0 <= i < lead.len() ==> is_space(#[trigger] lead[i]),
        s.len() > 0 ==> !is_space(s[0]),
    ensures
        trim_start(lead + s) == s,
    decreases lead.len(),
{
    if lead.len() == 0 {
        assert(lead + s =~= s);
    } else {
        assert((lead + s)[0] == lead[0]);
        assert((lead + s).drop_first() =~= lead.drop_first() + s);
        lemma_trim_start_skips(lead.drop_first(), s);
    }
}

/// What follows the first occurrence of a pattern is what it says: where there is something, the
/// pattern stands before it and nowhere earlier; where there is nothing, the pattern does not
/// occur.
pub proof fn law_after_first(s: Seq<char>, pattern: Seq<char>)
    requires
        pattern.len() > 0,
    ensures
        match after_first(s, pattern) {
            Some(rest) => {
                let at = s.len() - rest.len() - pattern.len();
                &&& 0 <= at
                &&& s == s.take(at) + pattern + rest
                &&& forall|i: int|
                    0 <= i < at ==> #[trigger] s.subrange(i, i + pattern.len()) != pattern
            },
            None => forall|i: int|
                0 <= i <= s.len() - pattern.len() ==> #[trigger] s.subrange(
                    i,
                    i + pattern.len(),
                ) != pattern,
        },
    decreases s.len(),
{
    let m = pattern.len() as int;
    if s.len() >= m {
        assert(s.take(m) =~= s.subrange(0, m));
        if s.take(m) == pattern {
            let rest = s.skip(m);
            assert(s =~= s.take(0) + pattern + rest);
        } else {
            let t = s.drop_first();
            law_after_first(t, pattern);
            match after_first(t, pattern) {
                Some(rest) => {
                    let at = s.len() - rest.len() - m;
                    assert(s =~= s.take(at) + pattern + rest) by {
                        assert(t =~= t.take(at - 1) + pattern + rest);
                        assert(s =~= seq![s[0]] + t);
                        assert(s.take(at) =~= seq![s[0]] + t.take(at - 1));
                    }
                    assert forall|i: int| 0 <= i < at implies #[trigger] s.subrange(i, i + m)
                        != pattern by {
                        if i > 0 {
                            assert(s.subrange(i, i + m) =~= t.subrange(i - 1, i - 1 + m));
                        }
                    }
                },
                None => {
                    assert forall|i: int| 0 <= i <= s.len() - m implies #[trigger] s.subrange(
                        i,
                        i + m,
                    ) != pattern by {
                        if i > 0 {
                            assert(s.subrange(i, i + m) =~= t.subrange(i - 1, i - 1 + m));
                        }
                    }
                },
            }
        }
    }
}

/// The number that decimal digits write, from the last one on.
pub open spec fn value_of(digits: Seq<char>) -> nat
    decreases digits.len(),
{
    if digits.len() == 0 {
        0
    } else {
        value_of(digits.drop_last()) * 10 + (digits.last() as int - '0' as int) as nat
    }
}

/// Whether a text is made of decimal digits alone.
pub open spec fn all_digits(s: Seq<char>) -> bool {
    forall|i: int| 0 <= i < s.len() ==> '0' <= #[trigger] s[i] <= '9'
}

proof fn lemma_parse_digits_value(head: Seq<char>, tail: Seq<char>, max: nat)
    requires
        all_digits(head),
        value_of(head) <= max,
    ensures
        parse_digits(head + tail, 0, max) == parse_digits(tail, value_of(head), max),
    decreases head.len(),
{
    if head.len() == 0 {
        assert(head + tail =~= tail);
    } else {
        let shorter = head.drop_last();
        let longer = seq![head.last()] + tail;
        assert(shorter + longer =~= head + tail);
        assert forall|i: int| 0 <= i < shorter.len() implies '0' <= #[trigger] shorter[i] <= '9' by {
            assert(shorter[i] == head[i]);
        }
        assert('0' <= head[head.len() - 1] <= '9');
        lemma_parse_digits_value(shorter, longer, max);
        assert(longer.drop_first() =~= tail);
        assert(longer[0] == head.last());
    }
}

/// Decimal digits are read as the number that they write where that is at most `max`, with or
/// without a `+` before them; else it is too large. A text is at fault where it is empty, or where
/// another character follows digits that are not too large yet.
pub proof fn law_parsing(digits: Seq<char>, c: char, rest: Seq<char>, max: nat)
    requires
        all_digits(digits),
    ensures
        parse_unsigned(Seq::empty(), max) == Err::<nat, ParseFailure>(ParseFailure::Empty),
        digits.len() > 0 && value_of(digits) <= max ==> parse_unsigned(digits, max) == Ok::<
            nat,
            ParseFailure,
        >(value_of(digits)),
        digits.len() > 0 ==> parse_unsigned(seq!['+'] + digits, max) == parse_unsigned(digits, max),
        digits.len() > 0 && value_of(digits) > max && value_of(digits.drop_last()) <= max
            ==> parse_unsigned(digits + rest, max) == Err::<nat, ParseFailure>(
            ParseFailure::TooLarge,
        ),
        !('0' <= c <= '9') && value_of(digits) <= max && (digits.len() > 0 || c != '+' || rest.len()
            == 0) ==> parse_unsigned(digits + seq![c] + rest, max) == Err::<nat, ParseFailure>(
            ParseFailure::InvalidDigit,
        ),
{
    let none = Seq::<char>::empty();
    if digits.len() > 0 {
        assert('0' <= digits[0] <= '9');
        let plus = seq!['+'] + digits;
        assert(plus.drop_first() =~= digits);
        assert(plus[0] == '+');
        if value_of(digits) <= max {
            lemma_parse_digits_value(digits, none, max);
            assert(digits + none =~= digits);
        }
        let shorter = digits.drop_last();
        if value_of(digits) > max && value_of(shorter) <= max {
            let longer = seq![digits.last()] + rest;
            assert forall|i: int| 0 <= i < shorter.len() implies '0' <= #[trigger] shorter[i]
                <= '9' by {
                assert(shorter[i] == digits[i]);
            }
            assert('0' <= digits[digits.len() - 1] <= '9');
            lemma_parse_digits_value(shorter, longer, max);
            assert(shorter + longer =~= digits + rest);
            assert((digits + rest)[0] == digits[0]);
            assert(longer[0] == digits.last());
        }
    }
    if !('0' <= c <= '9') && value_of(digits) <= max {
        let tail = seq![c] + rest;
        let s = digits + seq![c] + rest;
        lemma_parse_digits_value(digits, tail, max);
        assert(digits + tail =~= s);
        assert(tail[0] == c);
        if digits.len() > 0 {
            assert(s[0] == digits[0]);
        } else {
            assert(s[0] == c);
        }
    }
}

/// Lists joined with spaces: nothing for no part, the part for one, and a space between any two
/// lists.
pub proof fn law_spacing(a: Seq<Seq<char>>, b: Seq<Seq<char>>, part: Seq<char>)
    ensures
        spaced(Seq::empty()) == Seq::<char>::empty(),
        spaced(seq![part]) == part,
        a.len() > 0 && b.len() > 0 ==> spaced(a + b) == spaced(a) + " "@ + spaced(b),
    decreases b.len(),
{
    if a.len() > 0 && b.len() > 0 {
        assert((a + b).drop_last() =~= a + b.drop_last());
        assert((a + b).last() == b.last());
        if b.len() == 1 {
            assert(a + b.drop_last() =~= a);
        } else {
            law_spacing(a, b.drop_last(), part);
            assert(spaced(a + b) =~= spaced(a) + " "@ + spaced(b));
        }
    }
}

/// A relative name is put below its directory with exactly one slash between them, where the
/// directory has a name; an absolute one stands for itself.
pub proof fn law_joining(base: Seq<char>, name: Seq<char>)
    requires
        name.len() > 0,
    ensures
        name[0] == '/' ==> joined(base, name) == name,
        name[0] != '/' && base.len() == 0 ==> joined(base, name) == name,
        name[0] != '/' && base.len() > 0 && base.last() != '/' ==> joined(base, name) == base
            + seq!['/'] + name,
        name[0] != '/' ==> joined(base + seq!['/'], name) == base + seq!['/'] + name,
{
    reveal_strlit("/");
    assert("/"@ =~= seq!['/']);
    assert(Seq::<char>::empty() + name =~= name);
    assert((base + seq!['/']).last() == '/');
}

} // verus!
