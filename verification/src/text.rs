//! Characters, fields and numbers: what every record of the feed is made of.
//!
//! The feed is text. A record is a line that starts with a sigil and holds
//! fields, each of them a run of characters of one class that a comma or the
//! end of the line closes. The functions here scan such fields in a vector
//! of characters, by position, and say over `Seq<char>` what they find.

use vstd::prelude::*;

verus! {

/// `String::push` appends one character.
pub assume_specification[ String::push ](s: &mut String, c: char)
    ensures
        final(s)@ == old(s)@.push(c),
;

/// A record or a file of the feed that does not follow the grammar.
#[derive(Clone, Copy, Debug, PartialEq, Eq, Structural)]
pub struct ParseError;

/// Whether `c` is a line feed or a carriage return.
pub open spec fn spec_is_eol(c: char) -> bool {
    c == '\n' || c == '\r'
}

/// Whether `c` is a line feed or a carriage return.
#[verifier::when_used_as_spec(spec_is_eol)]
pub fn is_eol(c: char) -> (r: bool)
    ensures
        r == spec_is_eol(c),
{
    c == '\n' || c == '\r'
}

/// Whether `c` is white space as Unicode defines it, which is what trimming
/// a string removes.
pub open spec fn is_space(c: char) -> bool {
    let n = c as u32;
    (0x09 <= n <= 0x0D) || n == 0x20 || n == 0x85 || n == 0xA0 || n == 0x1680 || (0x2000 <= n
        <= 0x200A) || n == 0x2028 || n == 0x2029 || n == 0x202F || n == 0x205F || n == 0x3000
}

/// Whether `c` is white space as Unicode defines it.
pub fn char_is_space(c: char) -> (r: bool)
    ensures
        r == is_space(c),
{
    let n: u32 = c as u32;
    (0x09 <= n && n <= 0x0D) || n == 0x20 || n == 0x85 || n == 0xA0 || n == 0x1680 || (0x2000 <= n
        && n <= 0x200A) || n == 0x2028 || n == 0x2029 || n == 0x202F || n == 0x205F || n
        == 0x3000
}

/// The classes of characters that a field of the feed is made of.
#[derive(Clone, Copy, Debug, PartialEq, Eq, Structural)]
pub enum CharClass {
    /// A decimal digit, `0` to `9`.
    Digit,
    /// A binary digit, `0` or `1`.
    BinDigit,
    /// Anything but a line feed or a carriage return.
    NotEol,
    /// Anything but a comma.
    NotComma,
    /// An ASCII character that is not a comma.
    AsciiNotComma,
}

impl CharClass {
    /// Whether `c` belongs to the class.
    pub open spec fn holds(self, c: char) -> bool {
        match self {
            CharClass::Digit => '0' <= c <= '9',
            CharClass::BinDigit => c == '0' || c == '1',
            CharClass::NotEol => !spec_is_eol(c),
            CharClass::NotComma => c != ',',
            CharClass::AsciiNotComma => (c as u32) < 128 && c != ',',
        }
    }

    /// Whether `c` belongs to the class.
    pub fn test(self, c: char) -> (r: bool)
        ensures
            r == self.holds(c),
    {
        match self {
            CharClass::Digit => '0' <= c && c <= '9',
            CharClass::BinDigit => c == '0' || c == '1',
            CharClass::NotEol => !is_eol(c),
            CharClass::NotComma => c != ',',
            CharClass::AsciiNotComma => (c as u32) < 128 && c != ',',
        }
    }
}

/// What closes a field: a comma, or the end of the line (a line feed, or a
/// carriage return and a line feed).
#[derive(Clone, Copy, Debug, PartialEq, Eq, Structural)]
pub enum Terminator {
    Comma,
    LineEnd,
}

/// The end of the longest run of characters of `class` that starts at `i`.
pub open spec fn run_end(s: Seq<char>, i: int, class: CharClass) -> int
    decreases s.len() - i,
{
    if 0 <= i < s.len() && class.holds(s[i]) {
        run_end(s, i + 1, class)
    } else {
        i
    }
}

/// The position after the terminator that stands at `i`, if one stands there.
pub open spec fn after_terminator(s: Seq<char>, i: int, term: Terminator) -> Option<int> {
    match term {
        Terminator::Comma => if 0 <= i < s.len() && s[i] == ',' {
            Some(i + 1)
        } else {
            None
        },
        Terminator::LineEnd => if 0 <= i < s.len() && s[i] == '\n' {
            Some(i + 1)
        } else if 0 <= i && i + 1 < s.len() && s[i] == '\r' && s[i + 1] == '\n' {
            Some(i + 2)
        } else {
            None
        },
    }
}

/// The field that starts at `i`: where its text ends, and the position
/// after its terminator. `None` where the run of `class` is not followed by
/// `term`.
pub open spec fn field_at(s: Seq<char>, i: int, class: CharClass, term: Terminator) -> Option<
    (int, int),
> {
    let e = run_end(s, i, class);
    match after_terminator(s, e, term) {
        Some(n) => Some((e, n)),
        None => None,
    }
}

/// Whether the character `c` stands at position `i`.
pub open spec fn has_char(s: Seq<char>, i: int, c: char) -> bool {
    0 <= i < s.len() && s[i] == c
}

/// The characters of a string, one by one.
pub fn to_chars(s: &str) -> (r: Vec<char>)
    ensures
        r@ == s@,
{
    let mut out: Vec<char> = Vec::new();
    for c in it: s.chars()
        invariant
            it.seq() == s@,
            out@ == s@.take(it.index() as int),
    {
        out.push(c);
        assert(s@.take(it.index() + 1) =~= s@.take(it.index() as int).push(c));
    }
    assert(s@.take(s@.len() as int) =~= s@);
    out
}

/// The string made of the characters from `a` up to `b`.
pub fn string_of(s: &Vec<char>, a: usize, b: usize) -> (r: String)
    requires
        a <= b <= s.len(),
    ensures
        r@ == s@.subrange(a as int, b as int),
{
    let mut out = String::new();
    let mut i: usize = a;
    while i < b
        invariant
            a <= i <= b <= s.len(),
            out@ == s@.subrange(a as int, i as int),
        decreases b - i,
    {
        out.push(s[i]);
        assert(s@.subrange(a as int, i + 1) =~= s@.subrange(a as int, i as int).push(s@[i as int]));
        i += 1;
    }
    assert(s@.subrange(a as int, a as int) =~= Seq::<char>::empty());
    out
}

/// Scans the longest run of `class` from `i` and returns where it ends.
pub fn scan_run(s: &Vec<char>, i: usize, class: CharClass) -> (e: usize)
    requires
        i <= s.len(),
    ensures
        e == run_end(s@, i as int, class),
        i <= e <= s.len(),
{
    let mut j: usize = i;
    while j < s.len() && class.test(s[j])
        invariant
            i <= j <= s.len(),
            run_end(s@, i as int, class) == run_end(s@, j as int, class),
        decreases s.len() - j,
    {
        j += 1;
    }
    j
}

/// Reads the terminator at `i` and returns the position after it.
pub fn scan_terminator(s: &Vec<char>, i: usize, term: Terminator) -> (r: Option<usize>)
    requires
        i <= s.len(),
    ensures
        match after_terminator(s@, i as int, term) {
            Some(n) => r == Some(n as usize) && i < n <= s.len(),
            None => r.is_none(),
        },
{
    match term {
        Terminator::Comma => {
            if i < s.len() && s[i] == ',' {
                Some(i + 1)
            } else {
                None
            }
        },
        Terminator::LineEnd => {
            if i < s.len() && s[i] == '\n' {
                Some(i + 1)
            } else if i < s.len() && s.len() - i >= 2 && s[i] == '\r' && s[i + 1] == '\n' {
                Some(i + 2)
            } else {
                None
            }
        },
    }
}

/// Scans the field that starts at `i`: a run of `class`, then `term`.
/// Returns where the text ends and where the next field starts.
pub fn scan_field(s: &Vec<char>, i: usize, class: CharClass, term: Terminator) -> (r: Option<
    (usize, usize),
>)
    requires
        i <= s.len(),
    ensures
        match field_at(s@, i as int, class, term) {
            Some((e, n)) => r == Some((e as usize, n as usize)) && i <= e < n <= s.len(),
            None => r.is_none(),
        },
{
    let e = scan_run(s, i, class);
    match scan_terminator(s, e, term) {
        Some(n) => Some((e, n)),
        None => None,
    }
}

/// Whether the character `c` stands at position `i`.
pub fn at_char(s: &Vec<char>, i: usize, c: char) -> (r: bool)
    ensures
        r == has_char(s@, i as int, c),
{
    i < s.len() && s[i] == c
}

/// The first position from `a` on, before `b`, that holds no white space;
/// `b` where all of it is white space.
pub open spec fn trim_start(s: Seq<char>, a: int, b: int) -> int
    decreases b - a,
{
    if 0 <= a < b <= s.len() && is_space(s[a]) {
        trim_start(s, a + 1, b)
    } else {
        a
    }
}

/// The position after the last character between `a` and `b` that is no
/// white space; `a` where all of it is white space.
pub open spec fn trim_stop(s: Seq<char>, a: int, b: int) -> int
    decreases b - a,
{
    if 0 <= a < b <= s.len() && is_space(s[b - 1]) {
        trim_stop(s, a, b - 1)
    } else {
        b
    }
}

/// The text between `a` and `b` without the white space at its two ends.
pub open spec fn trimmed(s: Seq<char>, a: int, b: int) -> Seq<char> {
    let lo = trim_start(s, a, b);
    s.subrange(lo, trim_stop(s, lo, b))
}

/// A whole text without the white space at its two ends.
pub open spec fn spec_trim(t: Seq<char>) -> Seq<char> {
    trimmed(t, 0, t.len() as int)
}

/// The bounds of the text between `a` and `b` once trimmed.
pub fn trim_bounds(s: &Vec<char>, a: usize, b: usize) -> (r: (usize, usize))
    requires
        a <= b <= s.len(),
    ensures
        r.0 == trim_start(s@, a as int, b as int),
        r.1 == trim_stop(s@, r.0 as int, b as int),
        a <= r.0 <= r.1 <= b,
{
    let mut lo: usize = a;
    while lo < b && char_is_space(s[lo])
        invariant
            a <= lo <= b <= s.len(),
            trim_start(s@, a as int, b as int) == trim_start(s@, lo as int, b as int),
        decreases b - lo,
    {
        lo += 1;
    }
    let mut hi: usize = b;
    while lo < hi && char_is_space(s[hi - 1])
        invariant
            lo <= hi <= b <= s.len(),
            trim_stop(s@, lo as int, b as int) == trim_stop(s@, lo as int, hi as int),
        decreases hi - lo,
    {
        hi -= 1;
    }
    (lo, hi)
}

/// The text between `a` and `b`, trimmed, as a string.
pub fn trimmed_string(s: &Vec<char>, a: usize, b: usize) -> (r: String)
    requires
        a <= b <= s.len(),
    ensures
        r@ == trimmed(s@, a as int, b as int),
{
    let (lo, hi) = trim_bounds(s, a, b);
    string_of(s, lo, hi)
}

/// The value of the decimal digit `c`.
pub open spec fn digit_value(c: char) -> int {
    c as u32 - '0' as u32
}

/// The number that the decimal digits between `a` and `b` write.
pub open spec fn decimal_value(s: Seq<char>, a: int, b: int) -> int
    decreases b - a,
{
    if a < b {
        decimal_value(s, a, b - 1) * 10 + digit_value(s[b - 1])
    } else {
        0
    }
}

/// Whether every character between `a` and `b` is a decimal digit.
pub open spec fn all_digits(s: Seq<char>, a: int, b: int) -> bool {
    forall|k: int| a <= k < b ==> CharClass::Digit.holds(#[trigger] s[k])
}

/// The number that the text between `a` and `b` writes: an optional `+`,
/// then at least one decimal digit, and no more than `u32::MAX` in value.
pub open spec fn number_in(s: Seq<char>, a: int, b: int) -> Option<u32> {
    let from = if a < b && has_char(s, a, '+') {
        a + 1
    } else {
        a
    };
    if 0 <= from < b <= s.len() && all_digits(s, from, b) && decimal_value(s, from, b)
        <= u32::MAX {
        Some(decimal_value(s, from, b) as u32)
    } else {
        None
    }
}

/// Digits write a number that is not negative, and a longer run of digits
/// writes no smaller a number.
pub proof fn lemma_decimal_value_grows(s: Seq<char>, a: int, m: int, b: int)
    requires
        0 <= a <= m <= b <= s.len(),
        all_digits(s, a, b),
    ensures
        0 <= decimal_value(s, a, m) <= decimal_value(s, a, b),
    decreases b - a,
{
    if a < b {
        if m < b {
            lemma_decimal_value_grows(s, a, m, b - 1);
            assert(CharClass::Digit.holds(s[b - 1]));
        } else {
            lemma_decimal_value_grows(s, a, m - 1, b - 1);
            assert(CharClass::Digit.holds(s[b - 1]));
        }
    }
}

/// Reads the number that the text between `a` and `b` writes.
pub fn parse_number(s: &Vec<char>, a: usize, b: usize) -> (r: Option<u32>)
    requires
        a <= b <= s.len(),
    ensures
        r == number_in(s@, a as int, b as int),
{
    let from: usize = if a < b && s[a] == '+' {
        a + 1
    } else {
        a
    };
    if from >= b {
        return None;
    }
    let mut acc: u32 = 0;
    let mut i: usize = from;
    while i < b
        invariant
            a <= from <= i <= b <= s.len(),
            from < b,
            from == if a < b && has_char(s@, a as int, '+') {
                a + 1
            } else {
                a as int
            },
            all_digits(s@, from as int, i as int),
            acc == decimal_value(s@, from as int, i as int),
        decreases b - i,
    {
        let c = s[i];
        if !CharClass::Digit.test(c) {
            assert(!CharClass::Digit.holds(s@[i as int]));
            return None;
        }
        let d: u32 = c as u32 - '0' as u32;
        proof {
            assert(decimal_value(s@, from as int, i + 1) == acc * 10 + d);
            if all_digits(s@, from as int, b as int) {
                lemma_decimal_value_grows(s@, from as int, i + 1, b as int);
            }
        }
        let shifted = match acc.checked_mul(10) {
            Some(v) => v,
            None => {
                return None;
            },
        };
        acc = match shifted.checked_add(d) {
            Some(v) => v,
            None => {
                return None;
            },
        };
        i += 1;
    }
    Some(acc)
}

/// The character that writes the digit `d`.
pub open spec fn digit_char(d: int) -> char {
    if d == 0 {
        '0'
    } else if d == 1 {
        '1'
    } else if d == 2 {
        '2'
    } else if d == 3 {
        '3'
    } else if d == 4 {
        '4'
    } else if d == 5 {
        '5'
    } else if d == 6 {
        '6'
    } else if d == 7 {
        '7'
    } else if d == 8 {
        '8'
    } else {
        '9'
    }
}

/// The decimal digits of `n`, without leading zeros.
pub open spec fn decimal_text(n: nat) -> Seq<char>
    decreases n,
{
    if n < 10 {
        seq![digit_char(n as int)]
    } else {
        decimal_text(n / 10).push(digit_char((n % 10) as int))
    }
}

fn digit_of(d: u32) -> (c: char)
    requires
        d < 10,
    ensures
        c == digit_char(d as int),
{
    if d == 0 {
        '0'
    } else if d == 1 {
        '1'
    } else if d == 2 {
        '2'
    } else if d == 3 {
        '3'
    } else if d == 4 {
        '4'
    } else if d == 5 {
        '5'
    } else if d == 6 {
        '6'
    } else if d == 7 {
        '7'
    } else if d == 8 {
        '8'
    } else {
        '9'
    }
}

/// Appends the decimal digits of `n` to `out`.
pub fn push_decimal(out: &mut String, n: u32)
    ensures
        final(out)@ == old(out)@ + decimal_text(n as nat),
    decreases n,
{
    if n >= 10 {
        push_decimal(out, n / 10);
    }
    out.push(digit_of(n % 10));
    proof {
        if n < 10 {
            assert(old(out)@.push(digit_char(n as int)) =~= old(out)@ + decimal_text(n as nat));
        } else {
            assert((old(out)@ + decimal_text((n / 10) as nat)).push(digit_char((n % 10) as int))
                =~= old(out)@ + decimal_text(n as nat));
        }
    }
}

/// The decimal digits of `n` as a string.
pub fn decimal_string(n: u32) -> (r: String)
    ensures
        r@ == decimal_text(n as nat),
{
    let mut out = String::new();
    push_decimal(&mut out, n);
    assert(Seq::<char>::empty() + decimal_text(n as nat) =~= decimal_text(n as nat));
    out
}

/// What an optional field of the feed holds: nothing where the text is
/// empty or white space only.
pub trait Optional<T> {
    /// The value, unless there is none to speak of.
    fn as_option(&self) -> Option<T>;
}

/// A text is absent where trimming leaves nothing of it.
pub open spec fn text_as_option(t: Seq<char>) -> Option<Seq<char>> {
    if spec_trim(t).len() == 0 {
        None
    } else {
        Some(t)
    }
}

impl Optional<String> for String {
    fn as_option(&self) -> (r: Option<String>)
        ensures
            match text_as_option(self@) {
                Some(t) => r matches Some(v) && v@ == t,
                None => r.is_none(),
            },
    {
        let chars = to_chars(self.as_str());
        let (lo, hi) = trim_bounds(&chars, 0, chars.len());
        if lo == hi {
            None
        } else {
            Some(self.clone())
        }
    }
}

/// The field's text, trimmed, or nothing where that leaves it empty.
pub open spec fn optional_text(s: Seq<char>, a: int, b: int) -> Option<Seq<char>> {
    if trimmed(s, a, b).len() == 0 {
        None
    } else {
        Some(trimmed(s, a, b))
    }
}

/// The text between `a` and `b`, trimmed, or nothing where that leaves it
/// empty.
pub fn optional_string(s: &Vec<char>, a: usize, b: usize) -> (r: Option<String>)
    requires
        a <= b <= s.len(),
    ensures
        match optional_text(s@, a as int, b as int) {
            Some(t) => r matches Some(v) && v@ == t,
            None => r.is_none(),
        },
{
    let (lo, hi) = trim_bounds(s, a, b);
    if lo == hi {
        None
    } else {
        Some(string_of(s, lo, hi))
    }
}

/// The number that the `n` decimal digits from `i` on write; `None` where
/// fewer than `n` characters are left or one of them is no digit.
pub open spec fn digits_at(s: Seq<char>, i: int, n: int) -> Option<int> {
    if 0 <= i && i + n <= s.len() && all_digits(s, i, i + n) {
        Some(decimal_value(s, i, i + n))
    } else {
        None
    }
}

/// Reads exactly `n` decimal digits from `i` on, four at most.
pub fn fixed_digits(s: &Vec<char>, i: usize, n: usize) -> (r: Option<u32>)
    requires
        i <= s.len(),
        n <= 4,
    ensures
        match digits_at(s@, i as int, n as int) {
            Some(v) => r == Some(v as u32) && 0 <= v <= 9999,
            None => r.is_none(),
        },
{
    if s.len() - i < n {
        return None;
    }
    let mut acc: u32 = 0;
    let mut k: usize = 0;
    while k < n
        invariant
            k <= n <= 4,
            i + n <= s.len(),
            all_digits(s@, i as int, i + k),
            acc == decimal_value(s@, i as int, i + k),
            k == 0 ==> acc == 0,
            k == 1 ==> acc <= 9,
            k == 2 ==> acc <= 99,
            k == 3 ==> acc <= 999,
            k == 4 ==> acc <= 9999,
        decreases n - k,
    {
        let c = s[i + k];
        if !CharClass::Digit.test(c) {
            assert(!CharClass::Digit.holds(s@[i + k]));
            return None;
        }
        let d: u32 = c as u32 - '0' as u32;
        assert(decimal_value(s@, i as int, i + k + 1) == acc * 10 + d);
        acc = acc * 10 + d;
        k += 1;
    }
    Some(acc)
}

/// What is left of `input` from its `n`-th character on.
pub fn rest_from<'a>(input: &'a str, n: usize, len: usize) -> (r: &'a str)
    requires
        n <= len,
        len == input@.len(),
    ensures
        r@ == input@.subrange(n as int, input@.len() as int),
{
    input.substring_char(n, len)
}

/// The field at `i` read as a number, and the position after its
/// terminator.
pub open spec fn number_field_at(s: Seq<char>, i: int, class: CharClass, term: Terminator)
    -> Option<(u32, int)> {
    match field_at(s, i, class, term) {
        Some((e, n)) => match number_in(s, i, e) {
            Some(v) => Some((v, n)),
            None => None,
        },
        None => None,
    }
}

/// The field at `i` as trimmed text, and the position after its terminator.
pub open spec fn text_field_at(s: Seq<char>, i: int, class: CharClass, term: Terminator)
    -> Option<(Seq<char>, int)> {
    match field_at(s, i, class, term) {
        Some((e, n)) => Some((trimmed(s, i, e), n)),
        None => None,
    }
}

/// The field at `i` as trimmed text, or as nothing where that leaves it
/// empty, and the position after its terminator.
pub open spec fn optional_field_at(s: Seq<char>, i: int, class: CharClass, term: Terminator)
    -> Option<(Option<Seq<char>>, int)> {
    match field_at(s, i, class, term) {
        Some((e, n)) => Some((optional_text(s, i, e), n)),
        None => None,
    }
}

/// Reads the field at `i` as a number.
pub fn scan_number_field(s: &Vec<char>, i: usize, class: CharClass, term: Terminator) -> (r:
    Option<(u32, usize)>)
    requires
        i <= s.len(),
    ensures
        match number_field_at(s@, i as int, class, term) {
            Some((v, n)) => r == Some((v, n as usize)) && i < n <= s.len(),
            None => r.is_none(),
        },
{
    match scan_field(s, i, class, term) {
        Some((e, n)) => match parse_number(s, i, e) {
            Some(v) => Some((v, n)),
            None => None,
        },
        None => None,
    }
}

/// Reads the field at `i` as trimmed text.
pub fn scan_text_field(s: &Vec<char>, i: usize, class: CharClass, term: Terminator) -> (r:
    Option<(String, usize)>)
    requires
        i <= s.len(),
    ensures
        match text_field_at(s@, i as int, class, term) {
            Some((t, n)) => r matches Some((v, m)) && v@ == t && m == n && i < n <= s.len(),
            None => r.is_none(),
        },
{
    match scan_field(s, i, class, term) {
        Some((e, n)) => Some((trimmed_string(s, i, e), n)),
        None => None,
    }
}

/// Reads the field at `i` as trimmed text that may be absent.
pub fn scan_optional_field(s: &Vec<char>, i: usize, class: CharClass, term: Terminator) -> (r:
    Option<(Option<String>, usize)>)
    requires
        i <= s.len(),
    ensures
        match optional_field_at(s@, i as int, class, term) {
            Some((t, n)) => r matches Some((v, m)) && m == n && i < n <= s.len() && match t {
                Some(text) => v matches Some(w) && w@ == text,
                None => v.is_none(),
            },
            None => r.is_none(),
        },
{
    match scan_field(s, i, class, term) {
        Some((e, n)) => Some((optional_string(s, i, e), n)),
        None => None,
    }
}

/// A run of `class` that starts at `i` ends at `e` where all from `i` up
/// to `e` is of the class and what stands at `e`, if anything, is not.
pub proof fn lemma_run_ends_at(s: Seq<char>, i: int, e: int, class: CharClass)
    requires
        0 <= i <= e <= s.len(),
        forall|k: int| i <= k < e ==> class.holds(#[trigger] s[k]),
        e < s.len() ==> !class.holds(s[e]),
    ensures
        run_end(s, i, class) == e,
    decreases e - i,
{
    if i < e {
        lemma_run_ends_at(s, i + 1, e, class);
    }
}

/// Digits that stand at two places write the same number.
pub proof fn lemma_decimal_value_moves(s: Seq<char>, a: int, t: Seq<char>, c: int, n: int)
    requires
        0 <= n,
        0 <= a && a + n <= s.len(),
        0 <= c && c + n <= t.len(),
        s.subrange(a, a + n) == t.subrange(c, c + n),
    ensures
        decimal_value(s, a, a + n) == decimal_value(t, c, c + n),
    decreases n,
{
    if n > 0 {
        assert(s.subrange(a, a + n - 1) =~= s.subrange(a, a + n).subrange(0, n - 1));
        assert(t.subrange(c, c + n - 1) =~= t.subrange(c, c + n).subrange(0, n - 1));
        lemma_decimal_value_moves(s, a, t, c, n - 1);
        assert(s[a + n - 1] == s.subrange(a, a + n)[n - 1]);
        assert(t[c + n - 1] == t.subrange(c, c + n)[n - 1]);
    }
}

/// The decimal digits of a number are digits, at least one, and write the
/// number.
pub proof fn lemma_decimal_text_reads_back(n: nat)
    ensures
        decimal_text(n).len() >= 1,
        all_digits(decimal_text(n), 0, decimal_text(n).len() as int),
        decimal_value(decimal_text(n), 0, decimal_text(n).len() as int) == n,
    decreases n,
{
    let t = decimal_text(n);
    if n < 10 {
        assert(t.len() == 1);
        assert(t[0] == digit_char(n as int));
        assert(decimal_value(t, 0, 0) == 0);
        assert(decimal_value(t, 0, 1) == decimal_value(t, 0, 0) * 10 + digit_value(t[0]));
    } else {
        let head = decimal_text(n / 10);
        lemma_decimal_text_reads_back(n / 10);
        let m = head.len() as int;
        assert(t == head.push(digit_char((n % 10) as int)));
        assert(t.len() == m + 1);
        assert forall|k: int| 0 <= k < m + 1 implies CharClass::Digit.holds(#[trigger] t[k]) by {
            if k < m {
                assert(t[k] == head[k]);
                assert(CharClass::Digit.holds(head[k]));
            }
        }
        assert(t.subrange(0, m) =~= head.subrange(0, m));
        lemma_decimal_value_moves(t, 0, head, 0, m);
        assert(decimal_value(t, 0, m + 1) == decimal_value(t, 0, m) * 10 + digit_value(t[m]));
    }
}

/// Where the decimal digits of a number that fits 32 bits stand between
/// `a` and `b`, that number is read there.
pub proof fn lemma_number_reads_back(s: Seq<char>, a: int, b: int, n: u32)
    requires
        0 <= a <= b <= s.len(),
        s.subrange(a, b) == decimal_text(n as nat),
    ensures
        a < b,
        number_in(s, a, b) == Some(n),
        forall|k: int| a <= k < b ==> CharClass::Digit.holds(#[trigger] s[k]),
{
    let t = decimal_text(n as nat);
    lemma_decimal_text_reads_back(n as nat);
    assert(t.len() == b - a);
    assert forall|k: int| a <= k < b implies CharClass::Digit.holds(#[trigger] s[k]) by {
        assert(s[k] == s.subrange(a, b)[k - a]);
        assert(CharClass::Digit.holds(t[k - a]));
    }
    assert(t.subrange(0, b - a) =~= t);
    lemma_decimal_value_moves(s, a, t, 0, b - a);
    assert(CharClass::Digit.holds(s[a]));
}

} // verus!
