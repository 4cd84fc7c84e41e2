//! Verified text helpers for reading simple console answers: trimming
//! surrounding blanks, recognising a "no" answer, and parsing a small
//! decimal number.

use vstd::prelude::*;

verus! {

/// The blank characters that surround-trimming removes: the ASCII
/// whitespace characters (tab, line feed, vertical tab, form feed,
/// carriage return, space).
pub open spec fn is_blank(c: char) -> bool {
    c == '\t' || c == '\n' || c == '\u{b}' || c == '\u{c}' || c == '\r' || c == ' '
}

/// `s` without its leading blanks.
pub open spec fn trim_front(s: Seq<char>) -> Seq<char>
    decreases s.len(),
{
    if s.len() > 0 && is_blank(s[0]) {
        trim_front(s.skip(1))
    } else {
        s
    }
}

/// `s` without its trailing blanks.
pub open spec fn trim_back(s: Seq<char>) -> Seq<char>
    decreases s.len(),
{
    if s.len() > 0 && is_blank(s.last()) {
        trim_back(s.drop_last())
    } else {
        s
    }
}

/// `s` without its leading and trailing blanks.
pub open spec fn trimmed(s: Seq<char>) -> Seq<char> {
    trim_back(trim_front(s))
}

/// When the first `i` characters are blank and the character at `i`, if
/// any, is not, front-trimming drops exactly those `i` characters.
proof fn lemma_trim_front_at(s: Seq<char>, i: int)
    requires
        0 <= i <= s.len(),
        forall|j: int| 0 <= j < i ==> is_blank(s[j]),
        i < s.len() ==> !is_blank(s[i]),
    ensures
        trim_front(s) == s.skip(i),
    decreases i,
{
    if i == 0 {
        assert(s.skip(0) =~= s);
    } else {
        assert(is_blank(s[0]));
        lemma_trim_front_at(s.skip(1), i - 1);
        assert(s.skip(1).skip(i - 1) =~= s.skip(i));
    }
}

/// When every character from `i` on is blank and the character just
/// before `i`, if any, is not, back-trimming keeps exactly the first
/// `i` characters.
proof fn lemma_trim_back_at(s: Seq<char>, i: int)
    requires
        0 <= i <= s.len(),
        forall|j: int| i <= j < s.len() ==> is_blank(s[j]),
        i > 0 ==> !is_blank(s[i - 1]),
    ensures
        trim_back(s) == s.take(i),
    decreases s.len() - i,
{
    if i == s.len() {
        if i > 0 {
            assert(trim_back(s) == s);
        }
        assert(s.take(i) =~= s);
        if i == 0 {
            assert(s.len() == 0);
        }
    } else {
        assert(is_blank(s.last()));
        lemma_trim_back_at(s.drop_last(), i);
        assert(s.drop_last().take(i) =~= s.take(i));
    }
}

/// Executable test for [`is_blank`].
fn is_blank_char(c: char) -> (r: bool)
    ensures
        r == is_blank(c),
{
    c == '\t' || c == '\n' || c == '\u{b}' || c == '\u{c}' || c == '\r' || c == ' '
}

/// Returns the sub-slice of `s` without its leading and trailing
/// blanks, exactly as [`trimmed`] describes it.
pub fn trim_str(s: &str) -> (t: &str)
    ensures
        t@ == trimmed(s@),
{
    let n = s.unicode_len();
    let mut a: usize = 0;
    while a < n && is_blank_char(s.get_char(a))
        invariant
            0 <= a <= n,
            n == s@.len(),
            forall|j: int| 0 <= j < a ==> is_blank(s@[j]),
        decreases n - a,
    {
        a = a + 1;
    }
    let mut b: usize = n;
    while b > a && is_blank_char(s.get_char(b - 1))
        invariant
            a <= b <= n,
            n == s@.len(),
            forall|j: int| 0 <= j < a ==> is_blank(s@[j]),
            a < s@.len() ==> !is_blank(s@[a as int]),
            forall|j: int| b <= j < n ==> is_blank(s@[j]),
        decreases b,
    {
        b = b - 1;
    }
    proof {
        lemma_trim_front_at(s@, a as int);
        lemma_trim_back_at(s@.skip(a as int), b - a);
        assert(s@.skip(a as int).take(b - a) =~= s@.subrange(a as int, b as int));
    }
    s.substring_char(a, b)
}

/// A line requests to stop when, once surrounding blanks are removed,
/// it reads exactly `n`, in either letter case.
pub open spec fn stop_requested(s: Seq<char>) -> bool {
    trimmed(s) == seq!['n'] || trimmed(s) == seq!['N']
}

/// Executable test for [`stop_requested`].
pub fn requests_stop(s: &str) -> (r: bool)
    ensures
        r == stop_requested(s@),
{
    let t = trim_str(s);
    if t.unicode_len() == 1 {
        let c = t.get_char(0);
        let r = c == 'n' || c == 'N';
        proof {
            if c == 'n' {
                assert(t@ =~= seq!['n']);
            }
            if c == 'N' {
                assert(t@ =~= seq!['N']);
            }
            if !(c == 'n' || c == 'N') {
                assert(t@ != seq!['n']) by {
                    assert(t@[0] != seq!['n'][0]);
                }
                assert(t@ != seq!['N']) by {
                    assert(t@[0] != seq!['N'][0]);
                }
            }
        }
        r
    } else {
        proof {
            assert(trimmed(s@).len() != 1);
        }
        false
    }
}

/// A decimal digit.
pub open spec fn is_digit(c: char) -> bool {
    48 <= (c as u32) <= 57
}

/// The numeric value of a decimal digit.
pub open spec fn digit_val(c: char) -> int {
    (c as u32) - 48
}

/// The value of a string of decimal digits, most significant first.
pub open spec fn numeral_val(s: Seq<char>) -> int
    decreases s.len(),
{
    if s.len() == 0 {
        0
    } else {
        numeral_val(s.drop_last()) * 10 + digit_val(s.last())
    }
}

/// The digit portion of a decimal numeral: everything after one
/// optional leading plus sign.
pub open spec fn digits_of(s: Seq<char>) -> Seq<char> {
    if s.len() > 0 && s[0] == '+' {
        s.skip(1)
    } else {
        s
    }
}

/// `s` is a decimal numeral an eight-bit unsigned integer can hold: an
/// optional plus sign, then at least one digit, with a value of at most
/// two hundred and fifty-five.
pub open spec fn is_u8_numeral(s: Seq<char>) -> bool {
    let d = digits_of(s);
    &&& d.len() > 0
    &&& forall|i: int| 0 <= i < d.len() ==> is_digit(d[i])
    &&& numeral_val(d) <= 255
}

/// The value a valid numeral denotes.
pub open spec fn u8_numeral_value(s: Seq<char>) -> int {
    numeral_val(digits_of(s))
}

/// A string of digits never denotes a negative value.
proof fn lemma_numeral_nonneg(s: Seq<char>)
    requires
        forall|i: int| 0 <= i < s.len() ==> is_digit(s[i]),
    ensures
        numeral_val(s) >= 0,
    decreases s.len(),
{
    if s.len() > 0 {
        lemma_numeral_nonneg(s.drop_last());
    }
}

/// Parses `s`, with surrounding blanks removed, as a decimal numeral
/// for an eight-bit unsigned integer, the way the standard string
/// parser for that type reads it: `Some` exactly on valid numerals,
/// with the denoted value.
pub fn parse_u8(s: &str) -> (r: Option<u8>)
    ensures
        is_u8_numeral(trimmed(s@)) ==> r == Some(u8_numeral_value(trimmed(s@)) as u8),
        !is_u8_numeral(trimmed(s@)) ==> r is None,
{
    let t = trim_str(s);
    let n = t.unicode_len();
    let start: usize = if n > 0 && t.get_char(0) == '+' {
        1
    } else {
        0
    };
    let ghost d = digits_of(t@);
    proof {
        assert(d =~= t@.subrange(start as int, n as int));
    }
    if start >= n {
        return None;
    }
    let mut i: usize = start;
    let mut acc: u32 = 0;
    let mut over = false;
    while i < n
        invariant
            start <= i <= n,
            n == t@.len(),
            t@ == trimmed(s@),
            d == digits_of(t@),
            d == t@.subrange(start as int, n as int),
            forall|j: int| start <= j < i ==> is_digit(t@[j]),
            !over ==> acc <= 255 && acc == numeral_val(t@.subrange(start as int, i as int)),
            over ==> numeral_val(t@.subrange(start as int, i as int)) > 255,
        decreases n - i,
    {
        let c = t.get_char(i);
        let cv = c as u32;
        if cv < 48 || cv > 57 {
            proof {
                assert(!is_digit(d[i - start]));
            }
            return None;
        }
        let ghost pre = t@.subrange(start as int, i as int);
        let ghost cur = t@.subrange(start as int, i + 1 as int);
        proof {
            assert(cur.drop_last() =~= pre);
            assert(cur.last() == t@[i as int]);
            lemma_numeral_nonneg(pre);
        }
        if !over {
            acc = acc * 10 + (cv - 48);
            if acc > 255 {
                over = true;
            }
        }
        i = i + 1;
    }
    proof {
        assert(t@.subrange(start as int, n as int) == d);
    }
    if over {
        None
    } else {
        Some(acc as u8)
    }
}

} // verus!
