//! Text helpers shared by the log watcher and the parsers.

use vstd::prelude::*;

verus! {

/// `marker` stands in `line` at position `at`.
pub open spec fn occurs_at(line: Seq<char>, marker: Seq<char>, at: int) -> bool {
    &&& 0 <= at
    &&& at + marker.len() <= line.len()
    &&& line.subrange(at, at + marker.len()) == marker
}

/// `marker` is a substring of `line`: case-sensitive and unanchored.
pub open spec fn contains(line: Seq<char>, marker: Seq<char>) -> bool {
    exists|at: int| occurs_at(line, marker, at)
}

/// The characters of `s`, in order.
pub fn chars_of(s: &str) -> (out: Vec<char>)
    ensures
        out@ == s@,
{
    broadcast use vstd::string::group_string_axioms;

    let mut out: Vec<char> = Vec::new();
    for c in rest: s.chars()
        invariant
            rest.seq() == s@,
            out@ == s@.take(rest.index()),
    {
        out.push(c);
    }
    out
}

/// Whether `marker` stands in `line` at position `at`; it does not where
/// the line ends before the marker would.
pub fn matches_at(line: &Vec<char>, marker: &Vec<char>, at: usize) -> (hit: bool)
    ensures
        hit == occurs_at(line@, marker@, at as int),
{
    if marker.len() > line.len() || at > line.len() - marker.len() {
        return false;
    }
    let mut k: usize = 0;
    while k < marker.len()
        invariant
            k <= marker.len(),
            at + marker.len() <= line.len(),
            forall|j: int| 0 <= j < k ==> line@[at + j] == marker@[j],
        decreases marker.len() - k,
    {
        if line[at + k] != marker[k] {
            proof {
                let window = line@.subrange(at as int, at + marker@.len());
                assert(window[k as int] == line@[at + k]);
            }
            return false;
        }
        k += 1;
    }
    assert(line@.subrange(at as int, at + marker@.len()) =~= marker@);
    true
}

/// Whether `marker` is a substring of `line`.
pub fn chars_contain(line: &Vec<char>, marker: &Vec<char>) -> (found: bool)
    ensures
        found == contains(line@, marker@),
{
    if marker.len() > line.len() {
        return false;
    }
    let last: usize = line.len() - marker.len();
    let mut at: usize = 0;
    loop
        invariant
            last == line.len() - marker.len(),
            at <= last,
            forall|j: int| 0 <= j < at ==> !occurs_at(line@, marker@, j),
        decreases last - at,
    {
        if matches_at(line, marker, at) {
            return true;
        }
        if at == last {
            return false;
        }
        at += 1;
    }
}

/// Whether `marker` is a substring of `line`; every line contains the empty
/// marker.
pub fn str_contains(line: &str, marker: &str) -> (found: bool)
    ensures
        found == contains(line@, marker@),
{
    let line_chars = chars_of(line);
    let marker_chars = chars_of(marker);
    chars_contain(&line_chars, &marker_chars)
}

/// Whether two texts are the same.
pub fn str_eq(a: &str, b: &str) -> (same: bool)
    ensures
        same == (a@ == b@),
{
    let left = chars_of(a);
    let right = chars_of(b);
    if left.len() != right.len() {
        return false;
    }
    let mut at: usize = 0;
    while at < left.len()
        invariant
            at <= left.len(),
            left@ == a@,
            right@ == b@,
            left.len() == right.len(),
            forall|i: int| 0 <= i < at ==> left@[i] == right@[i],
        decreases left.len() - at,
    {
        if left[at] != right[at] {
            return false;
        }
        at += 1;
    }
    assert(left@ =~= right@);
    true
}

/// The models of a run of texts.
pub open spec fn strings_view(texts: Seq<String>) -> Seq<Seq<char>> {
    texts.map_values(|s: String| s@)
}

/// A copy of `texts`.
pub fn clone_strings(texts: &Vec<String>) -> (copy: Vec<String>)
    ensures
        copy@ == texts@,
{
    let mut copy: Vec<String> = Vec::new();
    let mut at: usize = 0;
    while at < texts.len()
        invariant
            at <= texts.len(),
            copy@ == texts@.take(at as int),
        decreases texts.len() - at,
    {
        copy.push(texts[at].clone());
        assert(copy@ =~= texts@.take(at + 1));
        at += 1;
    }
    assert(texts@.take(at as int) =~= texts@);
    copy
}

/// Whether `c` is one of the ten decimal digits.
pub open spec fn is_digit(c: char) -> bool {
    '0' <= c <= '9'
}

/// Whether `text` holds decimal digits only.
pub open spec fn all_digits(text: Seq<char>) -> bool {
    forall|i: int| 0 <= i < text.len() ==> is_digit(#[trigger] text[i])
}

/// The number that a digit stands for.
pub open spec fn digit_value(c: char) -> nat {
    (c as nat - '0' as nat) as nat
}

/// The number that a run of decimal digits stands for.
pub open spec fn decimal(digits: Seq<char>) -> nat
    decreases digits.len(),
{
    if digits.len() == 0 {
        0
    } else {
        decimal(digits.drop_last()) * 10 + digit_value(digits.last())
    }
}

/// `text` without the plus sign that may stand before a number.
pub open spec fn unsigned(text: Seq<char>) -> Seq<char> {
    if text.len() > 0 && text[0] == '+' {
        text.drop_first()
    } else {
        text
    }
}

/// The sixteen-bit number that `text` stands for: an optional plus sign and
/// then one or more decimal digits, nothing before, between or after them.
/// Other text, and a number that does not fit, stand for none.
pub open spec fn number_u16(text: Seq<char>) -> Option<u16> {
    let digits = unsigned(text);
    if digits.len() > 0 && all_digits(digits) && decimal(digits) <= u16::MAX {
        Some(decimal(digits) as u16)
    } else {
        None
    }
}

/// A longer run of digits stands for no smaller a number than its beginning.
proof fn lemma_decimal_grows(digits: Seq<char>, n: int)
    requires
        0 <= n <= digits.len(),
    ensures
        decimal(digits.take(n)) <= decimal(digits),
    decreases digits.len() - n,
{
    if n == digits.len() {
        assert(digits.take(n) =~= digits);
    } else {
        lemma_decimal_grows(digits.drop_last(), n);
        assert(digits.drop_last().take(n) =~= digits.take(n));
    }
}

/// Reads `text` as a sixteen-bit decimal number.
pub fn parse_u16(text: &Vec<char>) -> (number: Option<u16>)
    ensures
        number == number_u16(text@),
{
    let start: usize = if text.len() > 0 && text[0] == '+' {
        1
    } else {
        0
    };
    let ghost digits = unsigned(text@);
    assert(digits =~= text@.skip(start as int));
    if start == text.len() {
        return None;
    }
    let mut value: u32 = 0;
    let mut at: usize = start;
    while at < text.len()
        invariant
            start <= at <= text.len(),
            digits == unsigned(text@),
            digits == text@.skip(start as int),
            all_digits(digits.take(at - start)),
            value == decimal(digits.take(at - start)),
            value <= u16::MAX,
        decreases text.len() - at,
    {
        let c = text[at];
        let ghost read = digits.take(at - start + 1);
        proof {
            assert(digits[at - start] == c);
            assert(read.drop_last() =~= digits.take(at - start));
            assert(read.last() == c);
        }
        if c < '0' || c > '9' {
            return None;
        }
        let digit: u32 = c as u32 - '0' as u32;
        value = value * 10 + digit;
        assert(value == decimal(read));
        if value > 65535 {
            proof {
                lemma_decimal_grows(digits, at - start + 1);
            }
            return None;
        }
        assert forall|i: int| 0 <= i < read.len() implies is_digit(#[trigger] read[i]) by {
            if i < at - start {
                assert(read[i] == digits.take(at - start)[i]);
            }
        }
        at += 1;
    }
    assert(digits.take(at - start) =~= digits);
    Some(value as u16)
}

} // verus!
