//! Text as sequences of characters: the spec functions that the contracts of the
//! crate are written in, and the executable functions that compute them.

use vstd::prelude::*;

verus! {

/// `String::push` appends the given character to the end of the string.
pub assume_specification [String::push] (string: &mut String, c: char)
    ensures
        final(string)@ == old(string)@.push(c),
;

// ---------------------------------------------------------------------------
// Characters
// ---------------------------------------------------------------------------

/// The characters with the Unicode property `White_Space`.
pub open spec fn is_white(c: char) -> bool {
    ||| '\u{9}' <= c <= '\u{d}'
    ||| c == ' '
    ||| c == '\u{85}'
    ||| c == '\u{a0}'
    ||| c == '\u{1680}'
    ||| '\u{2000}' <= c <= '\u{200a}'
    ||| c == '\u{2028}'
    ||| c == '\u{2029}'
    ||| c == '\u{202f}'
    ||| c == '\u{205f}'
    ||| c == '\u{3000}'
}

/// Whether `c` has the Unicode property `White_Space`.
pub fn is_white_space(c: char) -> (white: bool)
    ensures
        white == is_white(c),
{
    ('\u{9}' <= c && c <= '\u{d}') || c == ' ' || c == '\u{85}' || c == '\u{a0}' || c == '\u{1680}'
        || ('\u{2000}' <= c && c <= '\u{200a}') || c == '\u{2028}' || c == '\u{2029}' || c
        == '\u{202f}' || c == '\u{205f}' || c == '\u{3000}'
}

/// The decimal digits.
pub open spec fn is_digit(c: char) -> bool {
    '0' <= c <= '9'
}

/// The ASCII letters.
pub open spec fn is_letter(c: char) -> bool {
    ('a' <= c <= 'z') || ('A' <= c <= 'Z')
}

/// The lower case of an ASCII letter.
pub open spec fn lower_letter(c: char) -> char {
    if 'A' <= c <= 'Z' {
        (c as u8 + 32) as u8 as char
    } else {
        c
    }
}

/// The digit of value `d`.
pub open spec fn digit_char(d: int) -> char {
    (48 + d) as u8 as char
}

/// The value of a digit.
pub open spec fn digit_value(c: char) -> int {
    c as int - 48
}

/// What a strip removes from an end of a text: white space, or one character.
#[derive(Clone, Copy)]
pub enum CharSet {
    White,
    Only(char),
}

impl CharSet {
    pub open spec fn has(self, c: char) -> bool {
        match self {
            CharSet::White => is_white(c),
            CharSet::Only(only) => c == only,
        }
    }

    fn holds(self, c: char) -> (held: bool)
        ensures
            held == self.has(c),
    {
        match self {
            CharSet::White => is_white_space(c),
            CharSet::Only(only) => c == only,
        }
    }
}

// ---------------------------------------------------------------------------
// Models
// ---------------------------------------------------------------------------

/// `s` from its first character outside `set` on.
pub open spec fn strip_start(s: Seq<char>, set: CharSet) -> Seq<char>
    decreases s.len(),
{
    if s.len() > 0 && set.has(s[0]) {
        strip_start(s.skip(1), set)
    } else {
        s
    }
}

/// `s` up to its last character outside `set`.
pub open spec fn strip_end(s: Seq<char>, set: CharSet) -> Seq<char>
    decreases s.len(),
{
    if s.len() > 0 && set.has(s.last()) {
        strip_end(s.drop_last(), set)
    } else {
        s
    }
}

/// `s` without the characters of `set` at both ends.
pub open spec fn strip(s: Seq<char>, set: CharSet) -> Seq<char> {
    strip_end(strip_start(s, set), set)
}

/// `s` without the white space at both ends.
pub open spec fn trim(s: Seq<char>) -> Seq<char> {
    strip(s, CharSet::White)
}

/// How many characters of `s` stand before its first `c`: all of them where it has none.
pub open spec fn find(s: Seq<char>, c: char) -> int
    decreases s.len(),
{
    if s.len() == 0 || s[0] == c {
        0
    } else {
        1 + find(s.skip(1), c)
    }
}

/// What follows the last `c` in `s`: all of it where it has none.
pub open spec fn after_last(s: Seq<char>, c: char) -> Seq<char>
    decreases s.len(),
{
    if s.len() == 0 || s.last() == c {
        seq![]
    } else {
        after_last(s.drop_last(), c).push(s.last())
    }
}

/// `part` stands somewhere in `s`.
pub open spec fn contains(s: Seq<char>, part: Seq<char>) -> bool {
    exists|i: int| 0 <= i <= s.len() - part.len() && #[trigger] s.subrange(i, i + part.len()) == part
}

/// `s` begins with `part`.
pub open spec fn starts_with(s: Seq<char>, part: Seq<char>) -> bool {
    part.len() <= s.len() && s.take(part.len() as int) == part
}

/// `s` with each `c` replaced by `with`.
pub open spec fn replace(s: Seq<char>, c: char, with: Seq<char>) -> Seq<char>
    decreases s.len(),
{
    if s.len() == 0 {
        s
    } else {
        replace(s.drop_last(), c, with) + if s.last() == c {
            with
        } else {
            seq![s.last()]
        }
    }
}

/// A line without the carriage return that belongs to its line ending.
pub open spec fn strip_return(s: Seq<char>) -> Seq<char> {
    if s.len() > 0 && s.last() == '\r' {
        s.drop_last()
    } else {
        s
    }
}

/// The lines of `s`, each without its ending, `\n` or `\r\n`; the ending of the last
/// line is optional.
pub open spec fn lines(s: Seq<char>) -> Seq<Seq<char>>
    decreases s.len(),
{
    let end = find(s, '\n');
    if s.len() == 0 {
        seq![]
    } else if end < 0 || end >= s.len() {
        seq![s]
    } else {
        seq![strip_return(s.take(end))] + lines(s.skip(end + 1))
    }
}

/// The length of the word that `s` begins with.
pub open spec fn word_len(s: Seq<char>) -> int
    decreases s.len(),
{
    if s.len() == 0 || is_white(s[0]) {
        0
    } else {
        1 + word_len(s.skip(1))
    }
}

/// The words of `s`, that is its longest parts without white space.
pub open spec fn words(s: Seq<char>) -> Seq<Seq<char>>
    decreases s.len(),
{
    if s.len() == 0 {
        seq![]
    } else if is_white(s[0]) {
        words(s.skip(1))
    } else {
        let len = word_len(s);
        if 0 < len <= s.len() {
            seq![s.take(len)] + words(s.skip(len))
        } else {
            seq![]
        }
    }
}

/// The decimal numeral of `n`.
pub open spec fn decimal(n: nat) -> Seq<char>
    decreases n,
{
    if n < 10 {
        seq![digit_char(n as int)]
    } else {
        decimal(n / 10).push(digit_char((n % 10) as int))
    }
}

/// The decimal numeral of `n`, with a minus sign before a negative one.
pub open spec fn integer(n: int) -> Seq<char> {
    if n < 0 {
        seq!['-'] + decimal((-n) as nat)
    } else {
        decimal(n as nat)
    }
}

/// The number that a sequence of digits stands for.
pub open spec fn digits_value(s: Seq<char>) -> nat
    decreases s.len(),
{
    if s.len() == 0 {
        0
    } else {
        (digits_value(s.drop_last()) * 10 + digit_value(s.last())) as nat
    }
}

/// One digit or more, and nothing else.
pub open spec fn is_numeral(s: Seq<char>) -> bool {
    s.len() > 0 && forall|i: int| 0 <= i < s.len() ==> is_digit(#[trigger] s[i])
}

/// The number that `s` writes, if it writes one of at most `max`: digits, after an optional
/// plus sign.
pub open spec fn unsigned(s: Seq<char>, max: nat) -> Option<nat> {
    let digits = if s.len() > 0 && s[0] == '+' {
        s.skip(1)
    } else {
        s
    };
    if is_numeral(digits) && digits_value(digits) <= max {
        Some(digits_value(digits))
    } else {
        None
    }
}

// ---------------------------------------------------------------------------
// Between strings and vectors of characters
// ---------------------------------------------------------------------------

/// The characters of `s`.
pub fn chars_of(s: &str) -> (chars: Vec<char>)
    ensures
        chars@ == s@,
{
    let mut chars: Vec<char> = Vec::new();
    for c in it: s.chars()
        invariant
            chars@ == s@.take(it.index()),
            it.seq() == s@,
    {
        chars.push(c);
    }
    assert(s@.take(s@.len() as int) == s@);
    chars
}

/// The string of the characters `from..to` of `chars`.
pub fn string_between(chars: &Vec<char>, from: usize, to: usize) -> (string: String)
    requires
        from <= to <= chars@.len(),
    ensures
        string@ == chars@.subrange(from as int, to as int),
{
    let mut string = String::new();
    let mut i: usize = from;
    while i < to
        invariant
            from <= i <= to <= chars@.len(),
            string@ == chars@.subrange(from as int, i as int),
        decreases to - i,
    {
        string.push(chars[i]);
        i += 1;
        assert(chars@.subrange(from as int, i as int) == chars@.subrange(
            from as int,
            i - 1,
        ).push(chars@[i - 1]));
    }
    string
}

/// The string of `chars`.
pub fn string_of(chars: &Vec<char>) -> (string: String)
    ensures
        string@ == chars@,
{
    assert(chars@.subrange(0, chars@.len() as int) == chars@);
    string_between(chars, 0, chars.len())
}

/// The characters `from..to` of `chars`.
pub fn chars_between(chars: &Vec<char>, from: usize, to: usize) -> (part: Vec<char>)
    requires
        from <= to <= chars@.len(),
    ensures
        part@ == chars@.subrange(from as int, to as int),
{
    let mut part: Vec<char> = Vec::new();
    let mut i: usize = from;
    while i < to
        invariant
            from <= i <= to <= chars@.len(),
            part@ == chars@.subrange(from as int, i as int),
        decreases to - i,
    {
        part.push(chars[i]);
        i += 1;
        assert(chars@.subrange(from as int, i as int) == chars@.subrange(
            from as int,
            i - 1,
        ).push(chars@[i - 1]));
    }
    part
}

// ---------------------------------------------------------------------------
// Computing the models
// ---------------------------------------------------------------------------

/// `s` without the characters of `set` at its start.
pub fn strip_chars_start(s: &Vec<char>, set: CharSet) -> (rest: Vec<char>)
    ensures
        rest@ == strip_start(s@, set),
{
    let mut from: usize = 0;
    assert(s@.skip(0) == s@);
    while from < s.len() && set.holds(s[from])
        invariant
            from <= s@.len(),
            strip_start(s@, set) == strip_start(s@.skip(from as int), set),
        decreases s@.len() - from,
    {
        assert(s@.skip(from as int).skip(1) == s@.skip(from + 1));
        from += 1;
    }
    assert(s@.skip(from as int) == s@.subrange(from as int, s@.len() as int));
    chars_between(s, from, s.len())
}

/// `s` without the characters of `set` at its end.
pub fn strip_chars_end(s: &Vec<char>, set: CharSet) -> (rest: Vec<char>)
    ensures
        rest@ == strip_end(s@, set),
{
    let mut to: usize = s.len();
    assert(s@.take(to as int) == s@);
    while to > 0 && set.holds(s[to - 1])
        invariant
            to <= s@.len(),
            strip_end(s@, set) == strip_end(s@.take(to as int), set),
        decreases to,
    {
        assert(s@.take(to as int).drop_last() == s@.take(to - 1));
        to -= 1;
    }
    assert(s@.take(to as int) == s@.subrange(0, to as int));
    chars_between(s, 0, to)
}

/// `s` without the characters of `set` at both ends.
pub fn strip_chars(s: &Vec<char>, set: CharSet) -> (rest: Vec<char>)
    ensures
        rest@ == strip(s@, set),
{
    strip_chars_end(&strip_chars_start(s, set), set)
}

/// `s` without the white space at both ends.
pub fn trimmed(s: &str) -> (rest: String)
    ensures
        rest@ == trim(s@),
{
    string_of(&strip_chars(&chars_of(s), CharSet::White))
}

/// Whether `s` is white space alone.
pub fn is_blank(s: &str) -> (blank: bool)
    ensures
        blank == (trim(s@).len() == 0),
{
    strip_chars(&chars_of(s), CharSet::White).len() == 0
}

/// How many characters of `s`, from `from` on, stand before the first `c`.
pub fn find_char(s: &Vec<char>, from: usize, c: char) -> (at: usize)
    requires
        from <= s@.len(),
    ensures
        from <= at <= s@.len(),
        at == from + find(s@.skip(from as int), c),
        at < s@.len() ==> s@[at as int] == c,
        forall|i: int| from <= i < at ==> s@[i] != c,
{
    let mut at: usize = from;
    while at < s.len() && s[at] != c
        invariant
            from <= at <= s@.len(),
            from + find(s@.skip(from as int), c) == at + find(s@.skip(at as int), c),
            forall|i: int| from <= i < at ==> s@[i] != c,
        decreases s@.len() - at,
    {
        assert(s@.skip(at as int).skip(1) == s@.skip(at + 1));
        at += 1;
    }
    at
}

/// What follows the last `c` in `s`.
pub fn text_after_last(s: &str, c: char) -> (rest: String)
    ensures
        rest@ == after_last(s@, c),
{
    let chars = chars_of(s);
    let mut rest: Vec<char> = Vec::new();
    let mut i: usize = 0;
    while i < chars.len()
        invariant
            i <= chars@.len(),
            rest@ == after_last(chars@.take(i as int), c),
        decreases chars@.len() - i,
    {
        if chars[i] == c {
            rest.clear();
        } else {
            rest.push(chars[i]);
        }
        i += 1;
        assert(chars@.take(i as int).drop_last() =~= chars@.take(i - 1));
        assert(chars@.take(i as int).last() == chars@[i - 1]);
    }
    assert(chars@.take(i as int) =~= chars@);
    string_of(&rest)
}

/// Whether `s` is the text `t`.
pub fn same_text(s: &str, t: &str) -> (same: bool)
    ensures
        same == (s@ == t@),
{
    let a = chars_of(s);
    let b = chars_of(t);
    if a.len() != b.len() {
        return false;
    }
    let mut i: usize = 0;
    while i < a.len()
        invariant
            i <= a@.len() == b@.len(),
            a@.take(i as int) == b@.take(i as int),
            a@ == s@,
            b@ == t@,
        decreases a@.len() - i,
    {
        if a[i] != b[i] {
            return false;
        }
        i += 1;
        assert(a@.take(i as int) == a@.take(i - 1).push(a@[i - 1]));
        assert(b@.take(i as int) == b@.take(i - 1).push(b@[i - 1]));
    }
    assert(a@.take(i as int) == a@);
    assert(b@.take(i as int) == b@);
    true
}

/// Whether `part` stands in `s` at `at`.
fn stands_at(s: &Vec<char>, at: usize, part: &Vec<char>) -> (stands: bool)
    requires
        at + part@.len() <= s@.len(),
    ensures
        stands == (s@.subrange(at as int, at + part@.len()) == part@),
{
    let len: usize = s.len();
    let mut i: usize = 0;
    while i < part.len()
        invariant
            i <= part@.len(),
            at + part@.len() <= s@.len() == len,
            forall|j: int| 0 <= j < i ==> s@[at + j] == part@[j],
        decreases part@.len() - i,
    {
        if s[at + i] != part[i] {
            assert(s@.subrange(at as int, at + part@.len())[i as int] != part@[i as int]);
            return false;
        }
        i += 1;
    }
    assert(s@.subrange(at as int, at + part@.len()) =~= part@);
    true
}

/// Whether `part` stands somewhere in `s`.
pub fn contains_text(s: &str, part: &str) -> (found: bool)
    ensures
        found == contains(s@, part@),
{
    let chars = chars_of(s);
    let wanted = chars_of(part);
    if wanted.len() > chars.len() {
        return false;
    }
    let last: usize = chars.len() - wanted.len();
    let mut at: usize = 0;
    while at < last
        invariant
            at <= last == chars@.len() - wanted@.len(),
            chars@ == s@,
            wanted@ == part@,
            forall|i: int|
                0 <= i < at ==> #[trigger] chars@.subrange(i, i + wanted@.len()) != wanted@,
        decreases last - at,
    {
        if stands_at(&chars, at, &wanted) {
            return true;
        }
        at += 1;
    }
    stands_at(&chars, last, &wanted)
}

/// What follows `prefix` in `s`, if `s` begins with it.
pub fn after_prefix(s: &str, prefix: &str) -> (rest: Option<String>)
    ensures
        rest is Some == starts_with(s@, prefix@),
        rest matches Some(rest) ==> rest@ == s@.skip(prefix@.len() as int),
{
    let s = chars_of(s);
    let prefix = chars_of(prefix);
    if prefix.len() > s.len() {
        return None;
    }
    assert(s@.subrange(0, prefix@.len() as int) == s@.take(prefix@.len() as int));
    assert(s@.subrange(prefix@.len() as int, s@.len() as int) == s@.skip(prefix@.len() as int));
    if stands_at(&s, 0, &prefix) {
        Some(string_between(&s, prefix.len(), s.len()))
    } else {
        None
    }
}

/// `s` with each `c` replaced by `with`.
pub fn replaced(s: &str, c: char, with: &str) -> (result: String)
    ensures
        result@ == replace(s@, c, with@),
{
    let chars = chars_of(s);
    let mut result = String::new();
    let mut i: usize = 0;
    while i < chars.len()
        invariant
            i <= chars@.len(),
            result@ == replace(chars@.take(i as int), c, with@),
        decreases chars@.len() - i,
    {
        if chars[i] == c {
            result.append(with);
        } else {
            result.push(chars[i]);
        }
        i += 1;
        assert(chars@.take(i as int).drop_last() == chars@.take(i - 1));
        assert(replace(chars@.take(i - 1), c, with@).push(chars@[i - 1]) == replace(
            chars@.take(i - 1),
            c,
            with@,
        ) + seq![chars@[i - 1]]);
    }
    assert(chars@.take(i as int) == chars@);
    result
}

/// The lines of `s`, without their endings.
pub fn line_texts(s: &str) -> (result: Vec<String>)
    ensures
        result.deep_view() == lines(s@),
{
    let chars = chars_of(s);
    let mut result: Vec<String> = Vec::new();
    let mut from: usize = 0;
    proof {
        assert(chars@.skip(0) == chars@);
        assert(result.deep_view() =~= seq![]);
    }
    while from < chars.len()
        invariant
            from <= chars@.len(),
            lines(chars@) == result.deep_view() + lines(chars@.skip(from as int)),
        decreases chars@.len() - from,
    {
        let end = find_char(&chars, from, '\n');
        let ghost rest = chars@.skip(from as int);
        let ghost before = result.deep_view();
        assert(find(rest, '\n') == end - from);
        if end == chars.len() {
            let line = string_between(&chars, from, end);
            assert(line@ =~= rest);
            result.push(line);
            assert(result.deep_view() =~= before.push(line@));
            assert(chars@.skip(end as int) =~= Seq::<char>::empty());
            from = end;
        } else {
            let ghost line_chars = rest.take(end - from);
            assert(chars@.subrange(from as int, end as int) =~= line_chars);
            let to: usize = if end > from && chars[end - 1] == '\r' {
                end - 1
            } else {
                end
            };
            let line = string_between(&chars, from, to);
            assert(line@ =~= strip_return(line_chars));
            result.push(line);
            assert(result.deep_view() =~= before.push(line@));
            assert(rest.skip(end - from + 1) =~= chars@.skip(end + 1));
            assert(before + (seq![line@] + lines(chars@.skip(end + 1))) =~= result.deep_view()
                + lines(chars@.skip(end + 1)));
            from = end + 1;
        }
    }
    assert(chars@.skip(from as int) =~= Seq::<char>::empty());
    assert(lines(chars@) =~= result.deep_view());
    result
}

/// The words of `s`.
pub fn word_texts(s: &str) -> (result: Vec<String>)
    ensures
        result.deep_view() == words(s@),
{
    let chars = chars_of(s);
    let mut result: Vec<String> = Vec::new();
    let mut from: usize = 0;
    proof {
        assert(chars@.skip(0) == chars@);
        assert(result.deep_view() =~= seq![]);
    }
    while from < chars.len()
        invariant
            from <= chars@.len(),
            words(chars@) == result.deep_view() + words(chars@.skip(from as int)),
        decreases chars@.len() - from,
    {
        let ghost rest = chars@.skip(from as int);
        if is_white_space(chars[from]) {
            assert(rest.skip(1) =~= chars@.skip(from + 1));
            from += 1;
        } else {
            let mut to: usize = from;
            while to < chars.len() && !is_white_space(chars[to])
                invariant
                    from <= to <= chars@.len(),
                    rest == chars@.skip(from as int),
                    word_len(rest) == to - from + word_len(chars@.skip(to as int)),
                decreases chars@.len() - to,
            {
                assert(chars@.skip(to as int).skip(1) =~= chars@.skip(to + 1));
                to += 1;
            }
            let word = string_between(&chars, from, to);
            let ghost before = result.deep_view();
            assert(word@ =~= rest.take(to - from));
            result.push(word);
            assert(result.deep_view() =~= before.push(word@));
            assert(rest.skip(to - from) =~= chars@.skip(to as int));
            assert(before + (seq![word@] + words(chars@.skip(to as int))) =~= result.deep_view()
                + words(chars@.skip(to as int)));
            from = to;
        }
    }
    assert(chars@.skip(from as int) =~= Seq::<char>::empty());
    assert(words(chars@) =~= result.deep_view());
    result
}

/// Appends the decimal numeral of `n` to `out`.
pub fn push_decimal(out: &mut String, n: u64)
    ensures
        final(out)@ == old(out)@ + decimal(n as nat),
    decreases n,
{
    if n >= 10 {
        push_decimal(out, n / 10);
    }
    let digit: u8 = (n % 10) as u8;
    out.push((48 + digit) as char);
    assert(out@ =~= old(out)@ + decimal(n as nat));
}

/// The decimal numeral of `n`.
pub fn decimal_text(n: u64) -> (numeral: String)
    ensures
        numeral@ == decimal(n as nat),
{
    let mut numeral = String::new();
    push_decimal(&mut numeral, n);
    numeral
}

/// The decimal numeral of `n`, with its sign if it is negative.
pub fn integer_text(n: i64) -> (numeral: String)
    ensures
        numeral@ == integer(n as int),
{
    let mut numeral = String::new();
    if n < 0 {
        numeral.push('-');
        let magnitude: u64 = (-(n as i128)) as u64;
        push_decimal(&mut numeral, magnitude);
    } else {
        push_decimal(&mut numeral, n as u64);
    }
    assert(numeral@ =~= integer(n as int));
    numeral
}

/// Reads an unsigned number of at most `max`: digits, after an optional plus sign.
pub fn parse_unsigned(s: &str, max: u32) -> (number: Option<u32>)
    ensures
        number is Some == unsigned(s@, max as nat) is Some,
        number matches Some(n) ==> unsigned(s@, max as nat) == Some(n as nat),
{
    let chars = chars_of(s);
    let start: usize = if chars.len() > 0 && chars[0] == '+' {
        1
    } else {
        0
    };
    let ghost digits = chars@.skip(start as int);
    assert(start == 0 ==> digits =~= chars@);
    if start == chars.len() {
        return None;
    }
    let mut value: u64 = 0;
    let mut i: usize = start;
    while i < chars.len()
        invariant
            start <= i <= chars@.len(),
            start < chars@.len(),
            digits == chars@.skip(start as int),
            digits == (if chars@.len() > 0 && chars@[0] == '+' { chars@.skip(1) } else { chars@ }),
            chars@ == s@,
            value == digits_value(digits.take(i - start)),
            value <= max,
            forall|j: int| 0 <= j < i - start ==> is_digit(#[trigger] digits[j]),
        decreases chars@.len() - i,
    {
        let c = chars[i];
        assert(digits[i - start] == c);
        if c < '0' || '9' < c {
            return None;
        }
        value = value * 10 + (c as u64 - 48);
        i += 1;
        assert(digits.take(i - start).drop_last() =~= digits.take(i - start - 1));
        if value > max as u64 {
            proof {
                if is_numeral(digits) {
                    lemma_digits_value_grows(digits, i - start);
                }
            }
            return None;
        }
    }
    assert(digits.take(i - start) =~= digits);
    Some(value as u32)
}

// ---------------------------------------------------------------------------
// Laws
// ---------------------------------------------------------------------------

/// A prefix of a numeral stands for a number that is no larger.
proof fn lemma_digits_value_grows(s: Seq<char>, len: int)
    requires
        is_numeral(s),
        0 <= len <= s.len(),
    ensures
        digits_value(s.take(len)) <= digits_value(s),
    decreases s.len() - len,
{
    if len == s.len() {
        assert(s.take(len) =~= s);
    } else {
        lemma_digits_value_grows(s, len + 1);
        assert(s.take(len + 1).drop_last() =~= s.take(len));
        assert(is_digit(s[len]));
    }
}

/// The numeral of `n` is a numeral and stands for `n`.
pub proof fn lemma_decimal(n: nat)
    ensures
        is_numeral(decimal(n)),
        digits_value(decimal(n)) == n,
    decreases n,
{
    if n >= 10 {
        lemma_decimal(n / 10);
        assert(decimal(n).drop_last() =~= decimal(n / 10));
    } else {
        assert(decimal(n).drop_last() =~= Seq::<char>::empty());
        assert(digits_value(Seq::<char>::empty()) == 0);
    }
}

/// A number is read back from its decimal numeral.
pub proof fn law_numeral_is_read_back(n: nat, max: nat)
    requires
        n <= max,
    ensures
        unsigned(decimal(n), max) == Some(n),
{
    lemma_decimal(n);
    assert(is_digit(decimal(n)[0]));
}

/// No character of `set` is left at an end that was stripped of it.
pub proof fn lemma_strip_start(s: Seq<char>, set: CharSet)
    ensures
        strip_start(s, set).len() <= s.len(),
        strip_start(s, set) == s.skip(s.len() - strip_start(s, set).len()),
        strip_start(s, set).len() > 0 ==> !set.has(strip_start(s, set)[0]),
    decreases s.len(),
{
    if s.len() > 0 && set.has(s[0]) {
        lemma_strip_start(s.skip(1), set);
        let rest = strip_start(s, set);
        assert(s.skip(1).skip(s.skip(1).len() - rest.len()) =~= s.skip(s.len() - rest.len()));
    } else {
        assert(s.skip(0) =~= s);
    }
}

/// No character of `set` is left at an end that was stripped of it.
pub proof fn lemma_strip_end(s: Seq<char>, set: CharSet)
    ensures
        strip_end(s, set).len() <= s.len(),
        strip_end(s, set) == s.take(strip_end(s, set).len() as int),
        strip_end(s, set).len() > 0 ==> !set.has(strip_end(s, set).last()),
        s.len() > 0 && !set.has(s[0]) ==> strip_end(s, set).len() > 0,
    decreases s.len(),
{
    if s.len() > 0 && set.has(s.last()) {
        lemma_strip_end(s.drop_last(), set);
        let rest = strip_end(s, set);
        assert(s.drop_last().take(rest.len() as int) =~= s.take(rest.len() as int));
    } else {
        assert(s.take(s.len() as int) =~= s);
    }
}

/// What is left of a text that was stripped neither begins nor ends with a character of `set`.
pub proof fn lemma_strip_ends(s: Seq<char>, set: CharSet)
    ensures
        strip(s, set).len() <= s.len(),
        strip(s, set).len() > 0 ==> !set.has(strip(s, set)[0]) && !set.has(strip(s, set).last()),
{
    lemma_strip_start(s, set);
    lemma_strip_end(strip_start(s, set), set);
}

/// A text that neither begins nor ends with a character of `set` is left as it is.
pub proof fn lemma_strip_nothing(s: Seq<char>, set: CharSet)
    requires
        s.len() > 0 ==> !set.has(s[0]) && !set.has(s.last()),
    ensures
        strip(s, set) == s,
{
}

/// Trimming a text twice trims it once.
pub proof fn law_trim_is_idempotent(s: Seq<char>)
    ensures
        trim(trim(s)) == trim(s),
{
    lemma_strip_ends(s, CharSet::White);
    lemma_strip_nothing(trim(s), CharSet::White);
}

/// A text does not hold a part with a character that the text does not hold.
pub proof fn lemma_no_part_without_char(s: Seq<char>, part: Seq<char>, at: int)
    requires
        0 <= at < part.len(),
        forall|i: int| 0 <= i < s.len() ==> s[i] != part[at],
    ensures
        !contains(s, part),
{
    if contains(s, part) {
        let i = choose|i: int|
            0 <= i <= s.len() - part.len() && #[trigger] s.subrange(i, i + part.len()) == part;
        assert(s.subrange(i, i + part.len())[at] == s[i + at]);
    }
}

/// Stripping the start takes off what stands before the first character outside the set.
pub proof fn lemma_strip_start_of(before: Seq<char>, rest: Seq<char>, set: CharSet)
    requires
        forall|i: int| 0 <= i < before.len() ==> set.has(#[trigger] before[i]),
        rest.len() > 0 ==> !set.has(rest[0]),
    ensures
        strip_start(before + rest, set) == rest,
    decreases before.len(),
{
    if before.len() == 0 {
        assert(before + rest =~= rest);
    } else {
        assert((before + rest)[0] == before[0]);
        assert((before + rest).skip(1) =~= before.skip(1) + rest);
        assert forall|i: int| 0 <= i < before.skip(1).len() implies set.has(
            #[trigger] before.skip(1)[i],
        ) by {
            assert(before.skip(1)[i] == before[i + 1]);
        }
        lemma_strip_start_of(before.skip(1), rest, set);
    }
}

/// Stripping the end takes off what stands after the last character outside the set.
proof fn lemma_strip_end_of(rest: Seq<char>, after: Seq<char>, set: CharSet)
    requires
        forall|i: int| 0 <= i < after.len() ==> set.has(#[trigger] after[i]),
        rest.len() > 0 ==> !set.has(rest.last()),
    ensures
        strip_end(rest + after, set) == rest,
    decreases after.len(),
{
    if after.len() == 0 {
        assert(rest + after =~= rest);
    } else {
        assert((rest + after).last() == after[after.len() - 1]);
        assert((rest + after).drop_last() =~= rest + after.drop_last());
        lemma_strip_end_of(rest, after.drop_last(), set);
    }
}

/// Stripping both ends.
proof fn lemma_strip_of(before: Seq<char>, middle: Seq<char>, after: Seq<char>, set: CharSet)
    requires
        forall|i: int| 0 <= i < before.len() ==> set.has(#[trigger] before[i]),
        forall|i: int| 0 <= i < after.len() ==> set.has(#[trigger] after[i]),
        middle.len() > 0 ==> !set.has(middle[0]) && !set.has(middle.last()),
    ensures
        strip(before + middle + after, set) == middle,
{
    if middle.len() > 0 {
        assert(before + middle + after =~= before + (middle + after));
        lemma_strip_start_of(before, middle + after, set);
        lemma_strip_end_of(middle, after, set);
    } else {
        let all = before + middle + after;
        assert forall|i: int| 0 <= i < all.len() implies set.has(#[trigger] all[i]) by {
            if i < before.len() {
                assert(all[i] == before[i]);
            } else {
                assert(all[i] == after[i - before.len()]);
            }
        }
        assert(all + middle =~= all);
        lemma_strip_start_of(all, middle, set);
        assert(middle =~= seq![]);
    }
}

/// Trimming a text takes off the white space at its ends, all of it and nothing else.
pub proof fn law_trim_takes_off_white_space(
    before: Seq<char>,
    middle: Seq<char>,
    after: Seq<char>,
)
    requires
        forall|i: int| 0 <= i < before.len() ==> is_white(#[trigger] before[i]),
        forall|i: int| 0 <= i < after.len() ==> is_white(#[trigger] after[i]),
        middle.len() > 0 ==> !is_white(middle[0]) && !is_white(middle.last()),
    ensures
        trim(before + middle + after) == middle,
{
    lemma_strip_of(before, middle, after, CharSet::White);
}

/// Stripping one character takes off every one at that end, and nothing else.
pub proof fn law_strip_takes_off_one_character(
    before: Seq<char>,
    middle: Seq<char>,
    after: Seq<char>,
    c: char,
)
    requires
        forall|i: int| 0 <= i < before.len() ==> #[trigger] before[i] == c,
        forall|i: int| 0 <= i < after.len() ==> #[trigger] after[i] == c,
        middle.len() > 0,
        middle[0] != c,
        middle.last() != c,
    ensures
        strip(before + middle + after, CharSet::Only(c)) == middle,
        strip_start(before + middle + after, CharSet::Only(c)) == middle + after,
        strip_end(before + middle + after, CharSet::Only(c)) == before + middle,
        strip_end(after, CharSet::Only(c)).len() == 0,
{
    let set = CharSet::Only(c);
    lemma_strip_of(before, middle, after, set);
    assert(before + middle + after =~= before + (middle + after));
    lemma_strip_start_of(before, middle + after, set);
    lemma_strip_end_of(before + middle, after, set);
    lemma_strip_end_of(seq![], after, set);
    assert(seq![] + after =~= after);
}

/// What [`find`] gives where the character stands after `before`.
proof fn lemma_find_after(before: Seq<char>, c: char, after: Seq<char>)
    requires
        !before.contains(c),
    ensures
        find(before + seq![c] + after, c) == before.len(),
    decreases before.len(),
{
    let whole = before + seq![c] + after;
    if before.len() == 0 {
        assert(whole[0] == c);
    } else {
        assert(before.contains(before[0]));
        assert(whole[0] == before[0]);
        let rest = before.skip(1);
        assert(!rest.contains(c)) by {
            if rest.contains(c) {
                let i = choose|i: int| 0 <= i < rest.len() && rest[i] == c;
                assert(before[i + 1] == c);
            }
        }
        lemma_find_after(rest, c, after);
        assert(whole.skip(1) =~= rest + seq![c] + after);
    }
}

/// What [`find`] gives where the character does not stand.
proof fn lemma_find_nothing(s: Seq<char>, c: char)
    requires
        !s.contains(c),
    ensures
        find(s, c) == s.len(),
    decreases s.len(),
{
    if s.len() > 0 {
        assert(s.contains(s[0]));
        let rest = s.skip(1);
        assert(!rest.contains(c)) by {
            if rest.contains(c) {
                let i = choose|i: int| 0 <= i < rest.len() && rest[i] == c;
                assert(s[i + 1] == c);
            }
        }
        lemma_find_nothing(rest, c);
    }
}

/// A character is found where it first stands, and a text without it is passed over whole.
pub proof fn law_first_character_is_found(before: Seq<char>, c: char, after: Seq<char>)
    requires
        !before.contains(c),
    ensures
        find(before + seq![c] + after, c) == before.len(),
        find(before, c) == before.len(),
{
    lemma_find_after(before, c, after);
    lemma_find_nothing(before, c);
}

/// What follows the last of a character is all that follows it, and a text without it is kept
/// whole.
pub proof fn law_what_follows_the_last_is_kept(before: Seq<char>, c: char, after: Seq<char>)
    requires
        !after.contains(c),
    ensures
        after_last(before + seq![c] + after, c) == after,
        after_last(after, c) == after,
    decreases after.len(),
{
    let whole = before + seq![c] + after;
    if after.len() == 0 {
        assert(whole.last() == c);
        assert(after =~= seq![]);
    } else {
        let front = after.drop_last();
        assert(after.contains(after.last()));
        assert(!front.contains(c)) by {
            if front.contains(c) {
                let i = choose|i: int| 0 <= i < front.len() && front[i] == c;
                assert(after[i] == c);
            }
        }
        law_what_follows_the_last_is_kept(before, c, front);
        assert(whole.drop_last() =~= before + seq![c] + front);
        assert(whole.last() == after.last());
        assert(front.push(after.last()) =~= after);
    }
}

/// A text holds a part exactly where it is that part between two others.
pub proof fn law_part_is_held(before: Seq<char>, part: Seq<char>, after: Seq<char>, s: Seq<char>)
    ensures
        contains(before + part + after, part),
        starts_with(part + after, part),
        contains(s, part) ==> exists|a: Seq<char>, b: Seq<char>| s == #[trigger] (a + part + b),
{
    let whole = before + part + after;
    let at = before.len() as int;
    assert(whole.subrange(at, at + part.len()) =~= part);
    assert((part + after).take(part.len() as int) =~= part);
    if contains(s, part) {
        let i = choose|i: int|
            0 <= i <= s.len() - part.len() && #[trigger] s.subrange(i, i + part.len()) == part;
        assert(s =~= s.take(i) + part + s.skip(i + part.len()));
    }
}

/// Replacing a character leaves the others as they are, each in its place.
pub proof fn law_replacing_goes_character_by_character(
    a: Seq<char>,
    b: Seq<char>,
    c: char,
    other: char,
    with: Seq<char>,
)
    requires
        other != c,
    ensures
        replace(a + b, c, with) == replace(a, c, with) + replace(b, c, with),
        replace(seq![c], c, with) == with,
        replace(seq![other], c, with) == seq![other],
        replace(Seq::<char>::empty(), c, with) == Seq::<char>::empty(),
    decreases b.len(),
{
    reveal_with_fuel(replace, 2);
    assert(seq![c].drop_last() =~= seq![]);
    assert(seq![other].drop_last() =~= seq![]);
    assert(replace(seq![c], c, with) =~= with);
    assert(replace(seq![other], c, with) =~= seq![other]);
    if b.len() == 0 {
        assert(a + b =~= a);
        assert(replace(a, c, with) + b =~= replace(a, c, with));
    } else {
        law_replacing_goes_character_by_character(a, b.drop_last(), c, other, with);
        assert((a + b).drop_last() =~= a + b.drop_last());
        assert((a + b).last() == b.last());
        assert(replace(a + b, c, with) =~= replace(a, c, with) + replace(b, c, with));
    }
}

/// A line is read as it is, without its ending, and the lines that follow are read after it. The
/// last line needs no ending.
pub proof fn law_line_is_read(line: Seq<char>, rest: Seq<char>)
    requires
        !line.contains('\n'),
    ensures
        line.len() == 0 || line.last() != '\r' ==> lines(line + seq!['\n'] + rest) == seq![line]
            + lines(rest),
        lines(line + seq!['\r', '\n'] + rest) == seq![line] + lines(rest),
        line.len() > 0 ==> lines(line) == seq![line],
        lines(Seq::<char>::empty()).len() == 0,
{
    lemma_find_after(line, '\n', rest);
    let plain = line + seq!['\n'] + rest;
    assert(plain.take(line.len() as int) =~= line);
    assert(plain.skip(line.len() as int + 1) =~= rest);
    let returned = line + seq!['\r'];
    assert(!returned.contains('\n')) by {
        if returned.contains('\n') {
            let i = choose|i: int| 0 <= i < returned.len() && returned[i] == '\n';
            assert(line[i] == '\n');
        }
    }
    lemma_find_after(returned, '\n', rest);
    let full = returned + seq!['\n'] + rest;
    assert(full =~= line + seq!['\r', '\n'] + rest);
    assert(full.take(returned.len() as int) =~= returned);
    assert(returned.drop_last() =~= line);
    assert(full.skip(returned.len() as int + 1) =~= rest);
    lemma_find_nothing(line, '\n');
}

/// How long a word is.
proof fn lemma_word_len(word: Seq<char>, rest: Seq<char>)
    requires
        forall|i: int| 0 <= i < word.len() ==> !is_white(#[trigger] word[i]),
        rest.len() > 0 ==> is_white(rest[0]),
    ensures
        word_len(word + rest) == word.len(),
    decreases word.len(),
{
    let whole = word + rest;
    if word.len() > 0 {
        assert(whole[0] == word[0]);
        assert(whole.skip(1) =~= word.skip(1) + rest);
        assert forall|i: int| 0 <= i < word.skip(1).len() implies !is_white(
            #[trigger] word.skip(1)[i],
        ) by {
            assert(word.skip(1)[i] == word[i + 1]);
        }
        lemma_word_len(word.skip(1), rest);
    } else {
        assert(whole =~= rest);
    }
}

/// A word is read as it is, and the words after the white space that ends it are read after it.
pub proof fn law_word_is_read(word: Seq<char>, blank: char, rest: Seq<char>)
    requires
        word.len() > 0,
        forall|i: int| 0 <= i < word.len() ==> !is_white(#[trigger] word[i]),
        is_white(blank),
    ensures
        words(word + seq![blank] + rest) == seq![word] + words(rest),
        words(seq![blank] + rest) == words(rest),
        words(word) == seq![word],
        words(Seq::<char>::empty()).len() == 0,
{
    reveal_with_fuel(words, 2);
    let whole = word + seq![blank] + rest;
    let tail = seq![blank] + rest;
    assert(!is_white(word[0]));
    assert(whole =~= word + tail);
    lemma_word_len(word, tail);
    assert(whole[0] == word[0]);
    assert(whole.take(word.len() as int) =~= word);
    assert(whole.skip(word.len() as int) =~= tail);
    assert(tail.skip(1) =~= rest);
    assert(word + seq![] =~= word);
    lemma_word_len(word, seq![]);
    assert(word.take(word.len() as int) =~= word);
    assert(word.skip(word.len() as int) =~= seq![]);
    assert(words(word) =~= seq![word]);
}

/// A numeral is written digit by digit, the last one last, without a zero before it.
pub proof fn law_numeral_is_positional(n: nat, d: nat)
    requires
        d < 10,
    ensures
        n > 0 ==> decimal(n * 10 + d) == decimal(n).push((48 + d) as u8 as char),
        decimal(d) == seq![(48 + d) as u8 as char],
        n > 0 ==> decimal(n)[0] != '0',
    decreases n,
{
    if n > 0 {
        assert((n * 10 + d) / 10 == n);
        assert((n * 10 + d) % 10 == d);
        if n >= 10 {
            law_numeral_is_positional(n / 10, n % 10);
        }
    }
}

/// A number is read from its digits: a plus sign and zeros before them change nothing, another
/// character makes it no number, and neither is a number that is too large.
pub proof fn law_number_is_read_from_digits(n: nat, max: nat, s: Seq<char>, i: int)
    requires
        0 <= i < s.len(),
        !is_digit(s[i]),
        i > 0 || s[0] != '+',
    ensures
        unsigned(decimal(n), max) == (if n <= max {
            Some(n)
        } else {
            None
        }),
        unsigned(seq!['+'] + decimal(n), max) == unsigned(decimal(n), max),
        unsigned(seq!['0'] + decimal(n), max) == unsigned(decimal(n), max),
        unsigned(s, max) is None,
        unsigned(Seq::<char>::empty(), max) is None,
        unsigned(seq!['+'], max) is None,
{
    let digits = decimal(n);
    lemma_decimal(n);
    assert(is_digit(digits[0]));
    assert((seq!['+'] + digits).skip(1) =~= digits);
    let padded = seq!['0'] + digits;
    assert(is_numeral(padded)) by {
        assert forall|j: int| 0 <= j < padded.len() implies is_digit(#[trigger] padded[j]) by {
            if j > 0 {
                assert(padded[j] == digits[j - 1]);
            }
        }
    }
    lemma_zero_before(digits);
    if s[0] == '+' {
        assert(s.skip(1)[i - 1] == s[i]);
    }
    assert(seq!['+'].skip(1).len() == 0);
}

/// A zero before digits changes nothing.
proof fn lemma_zero_before(digits: Seq<char>)
    ensures
        digits_value(seq!['0'] + digits) == digits_value(digits),
    decreases digits.len(),
{
    let padded = seq!['0'] + digits;
    if digits.len() == 0 {
        assert(padded.drop_last() =~= seq![]);
        assert(digits_value(padded.drop_last()) == 0);
        assert(padded.last() == '0');
    } else {
        lemma_zero_before(digits.drop_last());
        assert(padded.drop_last() =~= seq!['0'] + digits.drop_last());
        assert(padded.last() == digits.last());
    }
}

/// White space is what Unicode calls so: of the characters of ASCII the space and those from the
/// tab to the carriage return, and beyond ASCII these and no others. Letters and digits are those
/// of ASCII alone.
pub proof fn law_characters_are_told_apart(c: char)
    ensures
        c as int <= 0x7f ==> (is_white(c) <==> c as int == 0x20 || 9 <= c as int <= 13),
        c as int > 0x7f ==> (is_white(c) <==> c as int == 0x85 || c as int == 0xa0 || c as int
            == 0x1680 || 0x2000 <= c as int <= 0x200a || c as int == 0x2028 || c as int == 0x2029
            || c as int == 0x202f || c as int == 0x205f || c as int == 0x3000),
        is_digit(c) <==> 48 <= c as int <= 57,
        is_letter(c) <==> 65 <= c as int <= 90 || 97 <= c as int <= 122,
        65 <= c as int <= 90 ==> lower_letter(c) as int == c as int + 32,
        !(65 <= c as int <= 90) ==> lower_letter(c) == c,
{
}

/// A text begins with a part exactly where it is that part and what follows it.
pub proof fn law_beginning_is_a_part(s: Seq<char>, part: Seq<char>)
    ensures
        starts_with(s, part) <==> s.len() >= part.len() && s == part + s.skip(part.len() as int),
{
    if starts_with(s, part) {
        assert(s =~= part + s.skip(part.len() as int));
    } else if s.len() >= part.len() && s == part + s.skip(part.len() as int) {
        assert(s.take(part.len() as int) =~= part);
    }
}

} // verus!
