//! Building and comparing text over its sequence of characters.

use vstd::prelude::*;

verus! {

/// `String::push` appends one character.
pub assume_specification[ String::push ](s: &mut String, c: char)
    ensures
        final(s)@ == old(s)@.push(c),
;

/// `str == str` compares the two character sequences.
pub assume_specification[ <str as PartialEq>::eq ](a: &str, b: &str) -> (r: bool)
    ensures
        r == (a@ == b@),
;

/// Whether two texts hold the same characters.
pub fn same_text(a: &str, b: &str) -> (same: bool)
    ensures
        same == (a@ == b@),
{
    a.eq(b)
}

/// The decimal digit for `d`.
pub open spec fn digit_char(d: int) -> char {
    if d == 0 {
        '0'
    } else if d == 1 {
        '1'
    } else if d == 2 {
        '2'
    } else if d == 3 {
        '3'
    } else if d == 4 {
        '4'
    } else if d == 5 {
        '5'
    } else if d == 6 {
        '6'
    } else if d == 7 {
        '7'
    } else if d == 8 {
        '8'
    } else {
        '9'
    }
}

/// The decimal digits of a natural number, without leading zeros.
pub open spec fn digits(n: nat) -> Seq<char>
    decreases n,
{
    if n < 10 {
        seq![digit_char(n as int)]
    } else {
        digits(n / 10).push(digit_char((n % 10) as int))
    }
}

/// The decimal text of an integer, with a minus sign where it is negative.
pub open spec fn decimal(n: int) -> Seq<char> {
    if n < 0 {
        seq!['-'] + digits((-n) as nat)
    } else {
        digits(n as nat)
    }
}

fn digit_of(d: u64) -> (c: char)
    requires
        d < 10,
    ensures
        c == digit_char(d as int),
{
    if d == 0 {
        '0'
    } else if d == 1 {
        '1'
    } else if d == 2 {
        '2'
    } else if d == 3 {
        '3'
    } else if d == 4 {
        '4'
    } else if d == 5 {
        '5'
    } else if d == 6 {
        '6'
    } else if d == 7 {
        '7'
    } else if d == 8 {
        '8'
    } else {
        '9'
    }
}

/// Appends the decimal digits of `n` to `out`.
pub fn push_digits(out: &mut String, n: u64)
    ensures
        final(out)@ == old(out)@ + digits(n as nat),
{
    let mut reversed: Vec<char> = Vec::new();
    let mut rest: u64 = n;
    reversed.push(digit_of(rest % 10));
    rest = rest / 10;
    while rest > 0
        invariant
            reversed.len() >= 1,
            digits(n as nat) == if rest == 0 {
                reversed@.reverse()
            } else {
                digits(rest as nat) + reversed@.reverse()
            },
        decreases rest,
    {
        let ghost before = reversed@;
        reversed.push(digit_of(rest % 10));
        proof {
            assert(reversed@.reverse() == seq![digit_char((rest % 10) as int)] + before.reverse());
            if rest >= 10 {
                assert(digits(rest as nat) == digits((rest / 10) as nat).push(
                    digit_char((rest % 10) as int),
                ));
                assert(digits(rest as nat) + before.reverse() == digits((rest / 10) as nat)
                    + reversed@.reverse());
            } else {
                assert(digits(rest as nat) + before.reverse() == reversed@.reverse());
            }
        }
        rest = rest / 10;
    }
    let mut i: usize = reversed.len();
    while i > 0
        invariant
            i <= reversed.len(),
            out@ == old(out)@ + reversed@.reverse().take(reversed.len() - i),
        decreases i,
    {
        i = i - 1;
        out.push(reversed[i]);
        proof {
            let r = reversed@.reverse();
            let k = reversed.len() - i;
            assert(r.take(k as int) == r.take(k - 1).push(r[k - 1]));
        }
    }
    proof {
        assert(reversed@.reverse().take(reversed.len() as int) == reversed@.reverse());
    }
}

/// Appends the decimal text of `n` to `out`.
pub fn push_decimal(out: &mut String, n: i64)
    ensures
        final(out)@ == old(out)@ + decimal(n as int),
{
    if n < 0 {
        out.push('-');
        let magnitude: u64 = (-(n as i128)) as u64;
        push_digits(out, magnitude);
        proof {
            assert(old(out)@.push('-') + digits(magnitude as nat) == old(out)@ + (seq!['-']
                + digits(magnitude as nat)));
        }
    } else {
        push_digits(out, n as u64);
    }
}

/// The characters of a text, in order.
pub fn chars_of(input: &str) -> (out: Vec<char>)
    ensures
        out@ == input@,
{
    let mut out: Vec<char> = Vec::new();
    for c in iter: input.chars()
        invariant
            iter.seq() == input@,
            out@ == input@.take(iter.index() as int),
    {
        out.push(c);
        assert(input@.take(iter.index() + 1) == input@.take(iter.index() as int).push(
            input@[iter.index() as int],
        ));
    }
    assert(input@.take(input@.len() as int) == input@);
    out
}

/// Whether `c` occurs among `chars`.
pub fn holds_char(chars: &Vec<char>, c: char) -> (found: bool)
    ensures
        found == chars@.contains(c),
{
    let mut i: usize = 0;
    while i < chars.len()
        invariant
            i <= chars.len(),
            forall|j: int| 0 <= j < i ==> chars@[j] != c,
        decreases chars.len() - i,
    {
        if chars[i] == c {
            return true;
        }
        i = i + 1;
    }
    false
}

/// The text that holds the characters of `chars` from `begin` up to `end`.
pub fn text_of(chars: &Vec<char>, begin: usize, end: usize) -> (text: String)
    requires
        begin <= end <= chars.len(),
    ensures
        text@ == chars@.subrange(begin as int, end as int),
{
    let mut text = String::new();
    let mut i: usize = begin;
    while i < end
        invariant
            begin <= i <= end <= chars.len(),
            text@ == chars@.subrange(begin as int, i as int),
        decreases end - i,
    {
        text.push(chars[i]);
        assert(chars@.subrange(begin as int, i + 1) == chars@.subrange(begin as int, i as int).push(
            chars@[i as int],
        ));
        i = i + 1;
    }
    text
}

/// Ten to the power `n`.
pub open spec fn pow10(n: nat) -> nat
    decreases n,
{
    if n == 0 { 1 } else { 10 * pow10((n - 1) as nat) }
}

/// The last `width` decimal digits of `n`, with leading zeros.
pub open spec fn padded_digits(n: nat, width: nat) -> Seq<char>
    decreases width,
{
    if width == 0 {
        Seq::empty()
    } else {
        padded_digits(n / 10, (width - 1) as nat).push(digit_char((n % 10) as int))
    }
}

/// The last `width` decimal digits of `n` without the zeros at their end;
/// empty where they are all zero.
pub open spec fn significant_digits(n: nat, width: nat) -> Seq<char>
    decreases width,
{
    if width == 0 || n == 0 {
        Seq::empty()
    } else if n % 10 == 0 {
        significant_digits(n / 10, (width - 1) as nat)
    } else {
        padded_digits(n, width)
    }
}

/// A magnitude in millionths rounded to `places` decimal places, half
/// away from zero, as a count of units of the last place kept.
pub open spec fn rounded_magnitude(magnitude: nat, places: nat) -> nat {
    let unit = pow10((6 - places) as nat);
    (magnitude + unit / 2) / unit
}

/// A fixed-point number with `places` decimal places, at most six: a minus
/// sign where it is negative, the whole part, and after a dot the decimal
/// places where any are asked for. Rounds half away from zero.
pub open spec fn fixed_text(v: int, places: nat) -> Seq<char> {
    let magnitude = (if v < 0 { -v } else { v }) as nat;
    let rounded = rounded_magnitude(magnitude, places);
    let sign = if v < 0 { seq!['-'] } else { Seq::<char>::empty() };
    let whole = digits(rounded / pow10(places));
    if places == 0 {
        sign + whole
    } else {
        sign + whole + seq!['.'] + padded_digits(rounded % pow10(places), places)
    }
}

/// A fixed-point number in the shortest decimal form that gives it back: a
/// minus sign where it is negative, the whole part, and the decimal places
/// that are not zero at the end, after a dot where there are any.
pub open spec fn plain_text(v: int) -> Seq<char> {
    let magnitude = (if v < 0 { -v } else { v }) as nat;
    let sign = if v < 0 { seq!['-'] } else { Seq::<char>::empty() };
    let whole = digits(magnitude / 1_000_000);
    let fraction = significant_digits(magnitude % 1_000_000, 6);
    if fraction.len() == 0 {
        sign + whole
    } else {
        sign + whole + seq!['.'] + fraction
    }
}

/// Ten to a small power.
pub fn pow10_exec(n: u32) -> (p: u64)
    requires
        n <= 6,
    ensures
        p == pow10(n as nat),
        1 <= p <= 1_000_000,
{
    proof {
        reveal_with_fuel(pow10, 7);
    }
    if n == 0 {
        1
    } else if n == 1 {
        10
    } else if n == 2 {
        100
    } else if n == 3 {
        1_000
    } else if n == 4 {
        10_000
    } else if n == 5 {
        100_000
    } else {
        1_000_000
    }
}

/// The last `width` decimal digits of `n`, lowest first.
fn low_digits(n: u64, width: u32) -> (reversed: Vec<char>)
    ensures
        reversed@.reverse() == padded_digits(n as nat, width as nat),
        reversed.len() == width,
{
    let mut reversed: Vec<char> = Vec::new();
    let mut rest: u64 = n;
    let mut left: u32 = width;
    assert(reversed@.reverse() == Seq::<char>::empty());
    while left > 0
        invariant
            reversed.len() == width - left,
            left <= width,
            padded_digits(n as nat, width as nat) == padded_digits(rest as nat, left as nat)
                + reversed@.reverse(),
        decreases left,
    {
        let ghost before = reversed@;
        reversed.push(digit_of(rest % 10));
        proof {
            assert(reversed@.reverse() == seq![digit_char((rest % 10) as int)] + before.reverse());
            assert(padded_digits(rest as nat, left as nat) + before.reverse() == padded_digits(
                (rest / 10) as nat,
                (left - 1) as nat,
            ) + reversed@.reverse());
        }
        rest = rest / 10;
        left = left - 1;
    }
    reversed
}

/// Appends the characters of `reversed` from position `below` down to the
/// first.
fn push_reversed(out: &mut String, reversed: &Vec<char>, below: usize)
    requires
        below <= reversed.len(),
    ensures
        final(out)@ == old(out)@ + reversed@.take(below as int).reverse(),
{
    let mut i: usize = below;
    while i > 0
        invariant
            i <= below <= reversed.len(),
            out@ == old(out)@ + reversed@.take(below as int).reverse().take(below - i),
        decreases i,
    {
        i = i - 1;
        out.push(reversed[i]);
        proof {
            let r = reversed@.take(below as int).reverse();
            let k = below - i;
            assert(r.take(k as int) == r.take(k - 1).push(r[k - 1]));
        }
    }
    proof {
        let r = reversed@.take(below as int).reverse();
        assert(r.take(below as int) == r);
    }
}

/// Appends the last `width` decimal digits of `n`, with leading zeros.
pub fn push_padded(out: &mut String, n: u64, width: u32)
    ensures
        final(out)@ == old(out)@ + padded_digits(n as nat, width as nat),
{
    let reversed = low_digits(n, width);
    assert(reversed@.take(reversed.len() as int) == reversed@);
    push_reversed(out, &reversed, reversed.len());
}

/// The magnitude of a 64-bit integer.
pub fn magnitude_of(v: i64) -> (m: u64)
    ensures
        m == if v < 0 { -(v as int) } else { v as int },
{
    if v < 0 {
        (-(v as i128)) as u64
    } else {
        v as u64
    }
}

/// Appends a fixed-point number with `places` decimal places.
pub fn push_fixed(out: &mut String, v: i64, places: u32)
    requires
        places <= 6,
    ensures
        final(out)@ == old(out)@ + fixed_text(v as int, places as nat),
{
    let magnitude = magnitude_of(v);
    let unit = pow10_exec(6 - places);
    let scale = pow10_exec(places);
    let rounded: u64 = (magnitude + unit / 2) / unit;
    if v < 0 {
        out.push('-');
    }
    let ghost signed = out@;
    push_digits(out, rounded / scale);
    if places > 0 {
        out.push('.');
        push_padded(out, rounded % scale, places);
        proof {
            let whole = digits((rounded / scale) as nat);
            let fraction = padded_digits((rounded % scale) as nat, places as nat);
            assert((signed + whole).push('.') + fraction == signed + whole + seq!['.'] + fraction);
        }
    }
    proof {
        if v < 0 {
            assert(signed == old(out)@ + seq!['-']);
        } else {
            assert(signed == old(out)@ + Seq::<char>::empty());
        }
        let whole = digits((rounded / scale) as nat);
        let fraction = padded_digits((rounded % scale) as nat, places as nat);
        let sign = if v < 0 { seq!['-'] } else { Seq::<char>::empty() };
        assert(old(out)@ + sign + whole == old(out)@ + (sign + whole));
        assert(old(out)@ + sign + whole + seq!['.'] + fraction == old(out)@ + (sign + whole + seq![
            '.',
        ] + fraction));
    }
}

/// Appends a fixed-point number in its shortest decimal form.
pub fn push_plain(out: &mut String, v: i64)
    ensures
        final(out)@ == old(out)@ + plain_text(v as int),
{
    let magnitude = magnitude_of(v);
    if v < 0 {
        out.push('-');
    }
    let ghost signed = out@;
    push_digits(out, magnitude / 1_000_000);
    let mut fraction: u64 = magnitude % 1_000_000;
    let mut width: u32 = 6;
    while width > 0 && fraction != 0 && fraction % 10 == 0
        invariant
            width <= 6,
            significant_digits((magnitude % 1_000_000) as nat, 6) == significant_digits(
                fraction as nat,
                width as nat,
            ),
        decreases width,
    {
        fraction = fraction / 10;
        width = width - 1;
    }
    let ghost whole = digits((magnitude / 1_000_000) as nat);
    let ghost shown = significant_digits((magnitude % 1_000_000) as nat, 6);
    let ghost sign = if v < 0 { seq!['-'] } else { Seq::<char>::empty() };
    proof {
        if v < 0 {
            assert(signed == old(out)@ + seq!['-']);
        } else {
            assert(signed == old(out)@ + Seq::<char>::empty());
        }
        assert(old(out)@ + sign + whole == old(out)@ + (sign + whole));
    }
    if width > 0 && fraction != 0 {
        out.push('.');
        push_padded(out, fraction, width);
        proof {
            assert(shown == padded_digits(fraction as nat, width as nat));
            assert(shown.len() > 0);
            assert((signed + whole).push('.') + shown == old(out)@ + (sign + whole + seq!['.']
                + shown));
        }
    } else {
        assert(shown.len() == 0);
    }
}

/// Whether a character is a letter or a digit: what
/// `char::is_alphanumeric` answers.
pub uninterp spec fn char_is_alphanumeric(c: char) -> bool;

/// Whether a character is white space: what `char::is_whitespace` answers.
pub uninterp spec fn char_is_whitespace(c: char) -> bool;

/// `char::is_alphanumeric` classifies by the Unicode tables; its answer is
/// named.
pub assume_specification[ char::is_alphanumeric ](c: char) -> (b: bool)
    ensures
        b == char_is_alphanumeric(c),
;

/// `char::is_whitespace` classifies by the Unicode tables; its answer is
/// named.
pub assume_specification[ char::is_whitespace ](c: char) -> (b: bool)
    ensures
        b == char_is_whitespace(c),
;

/// Position of the first character at or after `from` that is not white
/// space; the length of `s` where there is none.
pub open spec fn skip_whitespace(s: Seq<char>, from: int) -> int
    decreases s.len() - from,
{
    if 0 <= from < s.len() && char_is_whitespace(s[from]) {
        skip_whitespace(s, from + 1)
    } else {
        from
    }
}

/// Position just after the last character before `below` that is not white
/// space; zero where there is none.
pub open spec fn skip_whitespace_back(s: Seq<char>, below: int) -> int
    decreases below,
{
    if 0 < below <= s.len() && char_is_whitespace(s[below - 1]) {
        skip_whitespace_back(s, below - 1)
    } else {
        below
    }
}

/// `s` without the white space at its two ends.
pub open spec fn trimmed(s: Seq<char>) -> Seq<char> {
    let begin = skip_whitespace(s, 0);
    let end = skip_whitespace_back(s, s.len() as int);
    if begin >= end {
        Seq::empty()
    } else {
        s.subrange(begin, end)
    }
}

/// Finds the part of `chars` that is left when the white space at its two
/// ends is taken off.
pub fn trim_bounds(chars: &Vec<char>) -> (bounds: (usize, usize))
    ensures
        bounds.0 == skip_whitespace(chars@, 0),
        bounds.1 == skip_whitespace_back(chars@, chars@.len() as int),
        bounds.0 <= chars.len(),
        bounds.1 <= chars.len(),
        bounds.0 < bounds.1 ==> trimmed(chars@) == chars@.subrange(
            bounds.0 as int,
            bounds.1 as int,
        ),
        bounds.0 >= bounds.1 ==> trimmed(chars@) == Seq::<char>::empty(),
{
    let mut begin: usize = 0;
    while begin < chars.len() && chars[begin].is_whitespace()
        invariant
            begin <= chars.len(),
            skip_whitespace(chars@, 0) == skip_whitespace(chars@, begin as int),
        decreases chars.len() - begin,
    {
        begin = begin + 1;
    }
    assert(skip_whitespace(chars@, begin as int) == begin);
    let mut end: usize = chars.len();
    while end > 0 && chars[end - 1].is_whitespace()
        invariant
            end <= chars.len(),
            skip_whitespace_back(chars@, chars@.len() as int) == skip_whitespace_back(
                chars@,
                end as int,
            ),
        decreases end,
    {
        end = end - 1;
    }
    assert(skip_whitespace_back(chars@, end as int) == end);
    (begin, end)
}

/// A text in lower case: what `str::to_lowercase` returns.
pub uninterp spec fn lowercase(text: Seq<char>) -> Seq<char>;

/// `str::to_lowercase` maps each character by the Unicode tables; its
/// result is named.
pub assume_specification[ str::to_lowercase ](text: &str) -> (lowered: String)
    ensures
        lowered@ == lowercase(text@),
;

/// Whether `text` begins with `prefix`.
pub open spec fn starts_with(text: Seq<char>, prefix: Seq<char>) -> bool {
    prefix.len() <= text.len() && text.subrange(0, prefix.len() as int) == prefix
}

/// Whether `needle` stands in `hay` at position `at`.
pub open spec fn occurs_at(hay: Seq<char>, needle: Seq<char>, at: int) -> bool {
    0 <= at && at + needle.len() <= hay.len() && hay.subrange(at, at + needle.len()) == needle
}

/// Whether `needle` stands somewhere in `hay`.
pub open spec fn has_substring(hay: Seq<char>, needle: Seq<char>) -> bool {
    exists|at: int| occurs_at(hay, needle, at)
}

/// Whether `needle` stands in `hay` at position `at`.
pub fn matches_at(hay: &Vec<char>, needle: &Vec<char>, at: usize) -> (found: bool)
    requires
        at + needle.len() <= hay.len(),
    ensures
        found == occurs_at(hay@, needle@, at as int),
{
    let mut k: usize = 0;
    while k < needle.len()
        invariant
            k <= needle.len(),
            at + needle.len() <= hay.len(),
            forall|j: int| 0 <= j < k ==> hay@[at + j] == needle@[j],
        decreases needle.len() - k,
    {
        if hay[at + k] != needle[k] {
            assert(hay@.subrange(at as int, at + needle.len())[k as int] != needle@[k as int]);
            return false;
        }
        k = k + 1;
    }
    assert(hay@.subrange(at as int, at + needle.len()) =~= needle@);
    true
}

/// Whether `text` begins with `prefix`.
pub fn begins_with(text: &Vec<char>, prefix: &Vec<char>) -> (found: bool)
    ensures
        found == starts_with(text@, prefix@),
{
    if prefix.len() > text.len() {
        return false;
    }
    matches_at(text, prefix, 0)
}

/// Whether `needle` stands somewhere in `hay`.
pub fn contains_text(hay: &Vec<char>, needle: &Vec<char>) -> (found: bool)
    ensures
        found == has_substring(hay@, needle@),
{
    if needle.len() > hay.len() {
        return false;
    }
    let last: usize = hay.len() - needle.len();
    let mut at: usize = 0;
    loop
        invariant
            at <= last,
            last == hay.len() - needle.len(),
            forall|j: int| 0 <= j < at ==> !occurs_at(hay@, needle@, j),
        decreases last - at,
    {
        if matches_at(hay, needle, at) {
            return true;
        }
        if at == last {
            return false;
        }
        at = at + 1;
    }
}

/// Position of the first `c` at or after `from`; the length of `text`
/// where there is none.
pub open spec fn position_of(text: Seq<char>, c: char, from: int) -> int
    decreases text.len() - from,
{
    if from < 0 || from >= text.len() || text[from] == c {
        from
    } else {
        position_of(text, c, from + 1)
    }
}

/// The pieces of `text` between the occurrences of `separator`; a text
/// without the separator is one piece, and a separator at either end
/// gives an empty piece there.
pub open spec fn split_on(text: Seq<char>, separator: char) -> Seq<Seq<char>>
    decreases text.len(),
{
    let cut = position_of(text, separator, 0);
    if cut < 0 || cut >= text.len() {
        seq![text]
    } else {
        seq![text.take(cut)] + split_on(text.skip(cut + 1), separator)
    }
}

/// A line without the carriage return at its end, if it has one.
pub open spec fn without_carriage_return(line: Seq<char>) -> Seq<char> {
    if line.len() > 0 && line.last() == '\r' { line.drop_last() } else { line }
}

/// The lines of `text`. A line ends with a line feed, or with a carriage
/// return and a line feed; neither belongs to the line. What follows the
/// last line feed is a line too, unless it is empty.
pub open spec fn lines_of(text: Seq<char>) -> Seq<Seq<char>>
    decreases text.len(),
{
    let cut = position_of(text, '\n', 0);
    if text.len() == 0 {
        Seq::empty()
    } else if cut < 0 || cut >= text.len() {
        seq![text]
    } else {
        seq![without_carriage_return(text.take(cut))] + lines_of(text.skip(cut + 1))
    }
}

/// Searching a suffix finds the same place as searching the whole text
/// from where the suffix starts.
pub proof fn lemma_position_of_suffix(text: Seq<char>, c: char, from: int, at: int)
    requires
        0 <= from <= at <= text.len(),
    ensures
        position_of(text.skip(from), c, at - from) == position_of(text, c, at) - from,
    decreases text.len() - at,
{
    if at < text.len() && text[at] != c {
        lemma_position_of_suffix(text, c, from, at + 1);
    }
}

/// Finds the first `c` at or after `from`.
pub fn find_char(text: &Vec<char>, c: char, from: usize) -> (at: usize)
    requires
        from <= text.len(),
    ensures
        at == position_of(text@, c, from as int),
        from <= at <= text.len(),
{
    let mut at: usize = from;
    while at < text.len() && text[at] != c
        invariant
            from <= at <= text.len(),
            position_of(text@, c, from as int) == position_of(text@, c, at as int),
        decreases text.len() - at,
    {
        at = at + 1;
    }
    at
}

/// Copies the characters from `begin` up to `end`.
pub fn copy_range(text: &Vec<char>, begin: usize, end: usize) -> (piece: Vec<char>)
    requires
        begin <= end <= text.len(),
    ensures
        piece@ == text@.subrange(begin as int, end as int),
{
    let mut piece: Vec<char> = Vec::new();
    let mut i: usize = begin;
    while i < end
        invariant
            begin <= i <= end <= text.len(),
            piece@ == text@.subrange(begin as int, i as int),
        decreases end - i,
    {
        piece.push(text[i]);
        assert(text@.subrange(begin as int, i + 1) == text@.subrange(begin as int, i as int).push(
            text@[i as int],
        ));
        i = i + 1;
    }
    piece
}

/// The view of a list of pieces: the character sequence of each.
pub open spec fn pieces_view(pieces: Seq<Vec<char>>) -> Seq<Seq<char>> {
    Seq::new(pieces.len(), |i: int| pieces[i]@)
}

/// Splits `text` at each occurrence of `separator`.
pub fn split_chars(text: &Vec<char>, separator: char) -> (pieces: Vec<Vec<char>>)
    ensures
        pieces_view(pieces@) == split_on(text@, separator),
{
    let mut pieces: Vec<Vec<char>> = Vec::new();
    let mut from: usize = 0;
    proof {
        assert(text@.skip(0) == text@);
        assert(pieces_view(pieces@) + split_on(text@, separator) == split_on(text@, separator));
    }
    loop
        invariant
            from <= text.len(),
            split_on(text@, separator) == pieces_view(pieces@) + split_on(
                text@.skip(from as int),
                separator,
            ),
        decreases text.len() - from,
    {
        let cut = find_char(text, separator, from);
        let ghost rest = text@.skip(from as int);
        let ghost done = pieces_view(pieces@);
        proof {
            lemma_position_of_suffix(text@, separator, from as int, from as int);
            assert(position_of(rest, separator, 0) == cut - from);
            assert(rest.take(cut - from) == text@.subrange(from as int, cut as int));
        }
        pieces.push(copy_range(text, from, cut));
        proof {
            assert(pieces_view(pieces@) == done + seq![text@.subrange(from as int, cut as int)]);
        }
        if cut >= text.len() {
            proof {
                assert(rest.take(cut - from) == rest);
                assert(split_on(rest, separator) == seq![rest]);
            }
            return pieces;
        }
        proof {
            assert(rest.skip(cut - from + 1) == text@.skip(cut + 1));
            assert(split_on(rest, separator) == seq![rest.take(cut - from)] + split_on(
                text@.skip(cut + 1),
                separator,
            ));
        }
        from = cut + 1;
    }
}

/// Splits `text` into its lines.
pub fn split_lines(text: &Vec<char>) -> (lines: Vec<Vec<char>>)
    ensures
        pieces_view(lines@) == lines_of(text@),
{
    let mut lines: Vec<Vec<char>> = Vec::new();
    let mut from: usize = 0;
    proof {
        assert(text@.skip(0) == text@);
        assert(pieces_view(lines@) + lines_of(text@) == lines_of(text@));
    }
    while from < text.len()
        invariant
            from <= text.len(),
            lines_of(text@) == pieces_view(lines@) + lines_of(text@.skip(from as int)),
        decreases text.len() - from,
    {
        let cut = find_char(text, '\n', from);
        let ghost rest = text@.skip(from as int);
        let ghost done = pieces_view(lines@);
        proof {
            lemma_position_of_suffix(text@, '\n', from as int, from as int);
            assert(position_of(rest, '\n', 0) == cut - from);
            assert(rest.take(cut - from) == text@.subrange(from as int, cut as int));
        }
        if cut >= text.len() {
            lines.push(copy_range(text, from, cut));
            proof {
                assert(rest.take(cut - from) == rest);
                assert(lines_of(rest) == seq![rest]);
                assert(pieces_view(lines@) == done + seq![rest]);
                assert(text@.skip(text@.len() as int).len() == 0);
                assert(lines_of(text@.skip(text@.len() as int)) == Seq::<Seq<char>>::empty());
            }
            from = text.len();
        } else {
            let end: usize = if cut > from && text[cut - 1] == '\r' { cut - 1 } else { cut };
            lines.push(copy_range(text, from, end));
            proof {
                let line = text@.subrange(from as int, cut as int);
                assert(without_carriage_return(line) == text@.subrange(from as int, end as int));
                assert(pieces_view(lines@) == done + seq![without_carriage_return(line)]);
                assert(rest.skip(cut - from + 1) == text@.skip(cut + 1));
            }
            from = cut + 1;
        }
    }
    proof {
        assert(text@.skip(from as int).len() == 0);
    }
    lines
}

/// The parts put together with `separator` between each two.
pub open spec fn joined(parts: Seq<Seq<char>>, separator: Seq<char>) -> Seq<char>
    decreases parts.len(),
{
    if parts.len() == 0 {
        Seq::empty()
    } else if parts.len() == 1 {
        parts[0]
    } else {
        joined(parts.drop_last(), separator) + separator + parts.last()
    }
}

/// The character sequences of a list of texts.
pub open spec fn texts_view(parts: Seq<&str>) -> Seq<Seq<char>> {
    Seq::new(parts.len(), |i: int| parts[i]@)
}

/// Puts texts together with `separator` between each two.
pub fn join_texts(parts: &Vec<&str>, separator: &str) -> (text: String)
    ensures
        text@ == joined(texts_view(parts@), separator@),
{
    let mut text = String::new();
    let mut i: usize = 0;
    assert(texts_view(parts@).take(0) == Seq::<Seq<char>>::empty());
    while i < parts.len()
        invariant
            i <= parts.len(),
            text@ == joined(texts_view(parts@).take(i as int), separator@),
        decreases parts.len() - i,
    {
        proof {
            let next = texts_view(parts@).take(i + 1);
            assert(next.drop_last() == texts_view(parts@).take(i as int));
            assert(next.last() == parts@[i as int]@);
            if i == 0 {
                assert(next[0] == parts@[0]@);
                assert(Seq::<char>::empty() + parts@[0]@ == parts@[0]@);
            }
        }
        if i > 0 {
            text.append(separator);
        }
        text.append(parts[i]);
        i = i + 1;
    }
    assert(texts_view(parts@).take(parts@.len() as int) == texts_view(parts@));
    text
}

/// A fixed-point number cut to its whole part, towards zero, and forced
/// into 32 bits.
pub open spec fn whole_part(v: int) -> int {
    let cut = if v >= 0 { v / 1_000_000 } else { -((-v) / 1_000_000) };
    if cut < i32::MIN {
        i32::MIN as int
    } else if cut > i32::MAX {
        i32::MAX as int
    } else {
        cut
    }
}

/// Cuts a fixed-point number to its whole part.
pub fn whole_part_of(v: i64) -> (whole: i32)
    ensures
        whole == whole_part(v as int),
{
    let magnitude: u64 = magnitude_of(v) / 1_000_000;
    if v >= 0 {
        if magnitude > i32::MAX as u64 {
            i32::MAX
        } else {
            magnitude as i32
        }
    } else if magnitude > i32::MAX as u64 {
        i32::MIN
    } else {
        -(magnitude as i32)
    }
}

/// A fixed-point number in its shortest decimal form, but with one
/// decimal place where it is whole: `25.0`, `0.5`.
pub open spec fn decimal_text(v: int) -> Seq<char> {
    let magnitude = (if v < 0 { -v } else { v }) as nat;
    if magnitude % 1_000_000 == 0 {
        plain_text(v) + ".0"@
    } else {
        plain_text(v)
    }
}

/// Appends a fixed-point number with at least one decimal place.
pub fn push_decimal_text(out: &mut String, v: i64)
    ensures
        final(out)@ == old(out)@ + decimal_text(v as int),
{
    push_plain(out, v);
    if magnitude_of(v) % 1_000_000 == 0 {
        out.append(".0");
        assert(out@ == old(out)@ + (plain_text(v as int) + ".0"@));
    }
}

/// Position of the first occurrence of `separator` at or after `from`;
/// the length of `text` where there is none.
pub open spec fn position_of_text(text: Seq<char>, separator: Seq<char>, from: int) -> int
    decreases text.len() - from,
{
    if from < 0 || from >= text.len() || occurs_at(text, separator, from) {
        if from > text.len() { text.len() as int } else { from }
    } else {
        position_of_text(text, separator, from + 1)
    }
}

/// The pieces of `text` between the occurrences of a separator that is
/// not empty, found from left to right without overlap.
pub open spec fn split_on_text(text: Seq<char>, separator: Seq<char>) -> Seq<Seq<char>>
    decreases text.len(),
{
    let cut = position_of_text(text, separator, 0);
    if separator.len() == 0 || cut < 0 || cut + separator.len() > text.len() {
        seq![text]
    } else {
        seq![text.take(cut)] + split_on_text(text.skip(cut + separator.len()), separator)
    }
}

/// Searching a suffix finds the same place as searching the whole text
/// from where the suffix starts.
pub proof fn lemma_position_of_text_suffix(
    text: Seq<char>,
    separator: Seq<char>,
    from: int,
    at: int,
)
    requires
        0 <= from <= at <= text.len(),
    ensures
        position_of_text(text.skip(from), separator, at - from) == position_of_text(
            text,
            separator,
            at,
        ) - from,
    decreases text.len() - at,
{
    if at < text.len() {
        let rest = text.skip(from);
        if at + separator.len() <= text.len() {
            assert(rest.subrange(at - from, at - from + separator.len()) == text.subrange(
                at,
                at + separator.len(),
            ));
        }
        assert(occurs_at(rest, separator, at - from) == occurs_at(text, separator, at));
        if !occurs_at(text, separator, at) {
            lemma_position_of_text_suffix(text, separator, from, at + 1);
        }
    }
}

/// Finds the first occurrence of `separator` at or after `from`.
pub fn find_text(text: &Vec<char>, separator: &Vec<char>, from: usize) -> (at: usize)
    requires
        from <= text.len(),
    ensures
        at == position_of_text(text@, separator@, from as int),
        from <= at <= text.len(),
        at < text.len() ==> at + separator.len() <= text.len(),
{
    let mut at: usize = from;
    while at < text.len()
        invariant
            from <= at <= text.len(),
            position_of_text(text@, separator@, from as int) == position_of_text(
                text@,
                separator@,
                at as int,
            ),
        decreases text.len() - at,
    {
        if separator.len() <= text.len() - at && matches_at(text, separator, at) {
            return at;
        }
        at = at + 1;
    }
    at
}

/// Splits `text` at each occurrence of `separator`, which is not empty.
pub fn split_text(text: &Vec<char>, separator: &Vec<char>) -> (pieces: Vec<Vec<char>>)
    requires
        separator.len() > 0,
    ensures
        pieces_view(pieces@) == split_on_text(text@, separator@),
{
    let mut pieces: Vec<Vec<char>> = Vec::new();
    let mut from: usize = 0;
    proof {
        assert(text@.skip(0) == text@);
        assert(pieces_view(pieces@) + split_on_text(text@, separator@) == split_on_text(
            text@,
            separator@,
        ));
    }
    loop
        invariant
            separator.len() > 0,
            from <= text.len(),
            split_on_text(text@, separator@) == pieces_view(pieces@) + split_on_text(
                text@.skip(from as int),
                separator@,
            ),
        decreases text.len() - from,
    {
        let cut = find_text(text, separator, from);
        let ghost rest = text@.skip(from as int);
        let ghost done = pieces_view(pieces@);
        proof {
            lemma_position_of_text_suffix(text@, separator@, from as int, from as int);
            assert(position_of_text(rest, separator@, 0) == cut - from);
            assert(rest.take(cut - from) == text@.subrange(from as int, cut as int));
        }
        pieces.push(copy_range(text, from, cut));
        proof {
            assert(pieces_view(pieces@) == done + seq![text@.subrange(from as int, cut as int)]);
        }
        if cut >= text.len() {
            proof {
                assert(rest.take(cut - from) == rest);
                assert(split_on_text(rest, separator@) == seq![rest]);
            }
            return pieces;
        }
        proof {
            assert(rest.skip(cut - from + separator@.len()) == text@.skip(cut + separator@.len()));
            assert(split_on_text(rest, separator@) == seq![rest.take(cut - from)] + split_on_text(
                text@.skip(cut + separator@.len()),
                separator@,
            ));
        }
        from = cut + separator.len();
    }
}

} // verus!
