//! Character-level utilities shared by the parser and the renderer:
//! conversion between strings and character vectors, character classes,
//! and decimal reading/printing of small integers.

use vstd::prelude::*;

verus! {

/// Relies on str::chars: it yields exactly the characters of the string,
/// which are the string's view.
#[verifier::external_body]
pub fn str_chars(s: &str) -> (r: Vec<char>)
    ensures
        r@ == s@,
{
    s.chars().collect()
}

/// Relies on String::push: it appends the character to the end of the string.
#[verifier::external_body]
pub fn push_char(s: &mut String, c: char)
    ensures
        final(s)@ == old(s)@.push(c),
{
    s.push(c);
}

/// Equality of two string slices, decided through owned strings so that the
/// result is tied to the views.
pub fn str_eq(a: &str, b: &str) -> (r: bool)
    ensures
        r == (a@ == b@),
{
    let oa: String = a.to_owned();
    let ob: String = b.to_owned();
    oa == ob
}

/// Builds an owned string out of the characters `s[from..to]`.
pub fn chars_to_string(s: &Vec<char>, from: usize, to: usize) -> (r: String)
    requires
        from <= to <= s@.len(),
    ensures
        r@ == s@.subrange(from as int, to as int),
{
    let mut r = String::new();
    let mut i: usize = from;
    while i < to
        invariant
            from <= i <= to <= s@.len(),
            r@ == s@.subrange(from as int, i as int),
        decreases to - i,
    {
        push_char(&mut r, s[i]);
        proof {
            assert(s@.subrange(from as int, (i + 1) as int) == s@.subrange(
                from as int,
                i as int,
            ).push(s@[i as int]));
        }
        i = i + 1;
    }
    r
}

/// Horizontal whitespace: a space or a tab.
pub open spec fn is_space_char(c: char) -> bool {
    c == ' ' || c == '\t'
}

/// Whitespace that may also break lines: space, tab, carriage return, newline.
pub open spec fn is_multispace_char(c: char) -> bool {
    c == ' ' || c == '\t' || c == '\r' || c == '\n'
}

/// A character of a bare identifier: an ASCII letter or digit, or an underscore.
pub open spec fn is_word_char(c: char) -> bool {
    ('a' <= c && c <= 'z') || ('A' <= c && c <= 'Z') || ('0' <= c && c <= '9') || c == '_'
}

/// An ASCII decimal digit.
pub open spec fn is_digit_char(c: char) -> bool {
    '0' <= c && c <= '9'
}

/// A control character (the Unicode `Cc` category), forbidden inside quoted
/// identifiers.
pub open spec fn is_control_char(c: char) -> bool {
    (c as u32) < 0x20 || (0x7f <= (c as u32) && (c as u32) <= 0x9f)
}

pub fn exec_is_space_char(c: char) -> (r: bool)
    ensures
        r == is_space_char(c),
{
    c == ' ' || c == '\t'
}

pub fn exec_is_multispace_char(c: char) -> (r: bool)
    ensures
        r == is_multispace_char(c),
{
    c == ' ' || c == '\t' || c == '\r' || c == '\n'
}

pub fn exec_is_word_char(c: char) -> (r: bool)
    ensures
        r == is_word_char(c),
{
    ('a' <= c && c <= 'z') || ('A' <= c && c <= 'Z') || ('0' <= c && c <= '9') || c == '_'
}

pub fn exec_is_digit_char(c: char) -> (r: bool)
    ensures
        r == is_digit_char(c),
{
    '0' <= c && c <= '9'
}

pub fn exec_is_control_char(c: char) -> (r: bool)
    ensures
        r == is_control_char(c),
{
    let u = c as u32;
    u < 0x20 || (0x7f <= u && u <= 0x9f)
}

/// The numeric value of a decimal digit character.
pub open spec fn digit_value(c: char) -> int {
    (c as u32) - ('0' as u32)
}

/// The value of a run of decimal digits, most significant first.
pub open spec fn digits_value(s: Seq<char>) -> int
    decreases s.len(),
{
    if s.len() == 0 {
        0
    } else {
        digits_value(s.drop_last()) * 10 + digit_value(s.last())
    }
}

/// Every character of the run is a decimal digit.
pub open spec fn all_digits(s: Seq<char>) -> bool {
    forall|i: int| 0 <= i < s.len() ==> is_digit_char(#[trigger] s[i])
}

/// The digit run of a numeric option value: everything after an optional
/// leading `+`.
pub open spec fn u8_body(s: Seq<char>) -> Seq<char> {
    if s.len() > 0 && s[0] == '+' {
        s.drop_first()
    } else {
        s
    }
}

/// The number an option value denotes, if it denotes one: an optional leading
/// `+`, then one or more decimal digits, with a value of at most 255.
pub open spec fn u8_from_chars(s: Seq<char>) -> Option<u8> {
    if u8_body(s).len() > 0 && all_digits(u8_body(s)) && digits_value(u8_body(s)) <= 255 {
        Some(digits_value(u8_body(s)) as u8)
    } else {
        None
    }
}

proof fn lemma_digits_value_nonneg(s: Seq<char>)
    requires
        forall|i: int| 0 <= i < s.len() ==> is_digit_char(#[trigger] s[i]),
    ensures
        digits_value(s) >= 0,
    decreases s.len(),
{
    if s.len() > 0 {
        lemma_digits_value_nonneg(s.drop_last());
    }
}

/// Reads the characters `s[from..to]` as a `u8` the way option values are
/// coerced: an optional leading `+`, then decimal digits, at most 255.
#[verifier::loop_isolation(false)]
pub fn parse_u8(s: &Vec<char>, from: usize, to: usize) -> (r: Option<u8>)
    requires
        from <= to <= s@.len(),
    ensures
        r == u8_from_chars(s@.subrange(from as int, to as int)),
{
    let ghost whole = s@.subrange(from as int, to as int);
    let mut i: usize = from;
    if i < to && s[i] == '+' {
        i = i + 1;
    }
    let ghost body = u8_body(whole);
    proof {
        assert(body =~= s@.subrange(i as int, to as int));
    }
    if i == to {
        return None;
    }
    let mut acc: u32 = 0;
    let mut j: usize = i;
    while j < to
        invariant
            from <= i <= j <= to <= s@.len(),
            i < to,
            body == s@.subrange(i as int, to as int),
            forall|k: int| i <= k < j ==> is_digit_char(#[trigger] s@[k]),
            acc == digits_value(s@.subrange(i as int, j as int)),
            acc <= 255,
        decreases to - j,
    {
        let c = s[j];
        if !exec_is_digit_char(c) {
            proof {
                assert(body[j - i] == s@[j as int]);
                assert(!all_digits(body));
            }
            return None;
        }
        let d: u32 = (c as u32) - 48;
        proof {
            assert(s@.subrange(i as int, (j + 1) as int).drop_last() =~= s@.subrange(
                i as int,
                j as int,
            ));
            assert(s@.subrange(i as int, (j + 1) as int).last() == s@[j as int]);
            lemma_digits_value_nonneg(s@.subrange(i as int, j as int));
        }
        let next: u32 = acc * 10 + d;
        if next > 255 {
            proof {
                if all_digits(body) {
                    assert(body.subrange(0, (j + 1 - i) as int) =~= s@.subrange(
                        i as int,
                        (j + 1) as int,
                    ));
                    lemma_digits_prefix_too_big(body, (j + 1 - i) as int);
                }
            }
            return None;
        }
        acc = next;
        j = j + 1;
    }
    proof {
        assert(all_digits(body));
    }
    Some(acc as u8)
}

/// If some prefix of a digit run already exceeds 255, so does the whole run.
proof fn lemma_digits_prefix_too_big(s: Seq<char>, n: int)
    requires
        0 <= n <= s.len(),
        forall|i: int| n <= i < s.len() ==> is_digit_char(#[trigger] s[i]),
        digits_value(s.subrange(0, n)) > 255,
    ensures
        digits_value(s) > 255,
    decreases s.len() - n,
{
    if n == s.len() {
        assert(s.subrange(0, n) == s);
    } else {
        let t = s.subrange(0, n + 1);
        assert(t.drop_last() == s.subrange(0, n));
        assert(digit_value(t.last()) >= 0);
        lemma_digits_prefix_too_big(s, n + 1);
    }
}

/// The decimal digit character for a value below ten.
pub open spec fn digit_char(d: int) -> char {
    if d == 0 {
        '0'
    } else if d == 1 {
        '1'
    } else if d == 2 {
        '2'
    } else if d == 3 {
        '3'
    } else if d == 4 {
        '4'
    } else if d == 5 {
        '5'
    } else if d == 6 {
        '6'
    } else if d == 7 {
        '7'
    } else if d == 8 {
        '8'
    } else {
        '9'
    }
}

/// The decimal rendering of a non-negative number, most significant digit
/// first.
pub open spec fn dec_chars(n: int) -> Seq<char>
    decreases n,
{
    if n <= 9 {
        seq![digit_char(n)]
    } else {
        dec_chars(n / 10).push(digit_char(n % 10))
    }
}

fn exec_digit_char(d: u64) -> (r: char)
    requires
        d <= 9,
    ensures
        r == digit_char(d as int),
{
    if d == 0 {
        '0'
    } else if d == 1 {
        '1'
    } else if d == 2 {
        '2'
    } else if d == 3 {
        '3'
    } else if d == 4 {
        '4'
    } else if d == 5 {
        '5'
    } else if d == 6 {
        '6'
    } else if d == 7 {
        '7'
    } else if d == 8 {
        '8'
    } else {
        '9'
    }
}

/// Appends the decimal rendering of `n` to `out`.
pub fn append_decimal(out: &mut String, n: u64)
    ensures
        final(out)@ == old(out)@ + dec_chars(n as int),
    decreases n,
{
    if n <= 9 {
        push_char(out, exec_digit_char(n));
    } else {
        append_decimal(out, n / 10);
        push_char(out, exec_digit_char(n % 10));
    }
}

} // verus!
