//! Small text operations the rest of the library is written with: comparing
//! and extending strings, and writing whole numbers in decimal.

use vstd::prelude::*;
use vstd::string::StrSliceExecFns;

verus! {

/// Whether two string slices hold the same characters.
pub(crate) fn same_text(a: &str, b: &str) -> (equal: bool)
    ensures
        equal == (a@ == b@),
{
    let x = chars_of(a);
    let y = chars_of(b);
    if x.len() != y.len() {
        return false;
    }
    let mut i: usize = 0;
    while i < x.len()
        invariant
            x@ == a@,
            y@ == b@,
            x@.len() == y@.len(),
            i <= x@.len(),
            forall|j: int| 0 <= j < i ==> x@[j] == y@[j],
        decreases x@.len() - i,
    {
        if x[i] != y[i] {
            return false;
        }
        i += 1;
    }
    assert(x@ =~= y@);
    true
}

/// Appends one character.
///
/// Calls `String::push`, which std documents as appending the character
/// to the end of the string; the contract says the new contents are the
/// old ones with that character added.
#[verifier::external_body]
pub(crate) fn push_char(s: &mut String, c: char)
    ensures
        final(s)@ == old(s)@.push(c),
{
    s.push(c);
}

/// The characters of a string slice, one by one.
pub fn chars_of(s: &str) -> (chars: Vec<char>)
    ensures
        chars@ == s@,
{
    let n = s.unicode_len();
    let mut chars: Vec<char> = Vec::new();
    let mut i: usize = 0;
    while i < n
        invariant
            n == s@.len(),
            i <= n,
            chars@ == s@.subrange(0, i as int),
        decreases n - i,
    {
        chars.push(s.get_char(i));
        i += 1;
    }
    chars
}

/// Whether a character has Unicode's Uppercase property.
pub uninterp spec fn has_uppercase_property(c: char) -> bool;

/// Whether a character has Unicode's Lowercase property.
pub uninterp spec fn has_lowercase_property(c: char) -> bool;

/// Whether a character is uppercase.
///
/// Calls `char::is_uppercase`, which std documents as true exactly for a
/// character with the Uppercase property; the contract names that result,
/// and says what the property is for the ASCII letters and digits.
#[verifier::external_body]
pub(crate) fn is_uppercase(c: char) -> (upper: bool)
    ensures
        upper == has_uppercase_property(c),
        'A' <= c <= 'Z' ==> upper,
        ('a' <= c <= 'z' || '0' <= c <= '9') ==> !upper,
{
    c.is_uppercase()
}

/// Whether a character is lowercase.
///
/// Calls `char::is_lowercase`, which std documents as true exactly for a
/// character with the Lowercase property; the contract names that result,
/// and says what the property is for the ASCII letters and digits.
#[verifier::external_body]
pub(crate) fn is_lowercase(c: char) -> (lower: bool)
    ensures
        lower == has_lowercase_property(c),
        'a' <= c <= 'z' ==> lower,
        ('A' <= c <= 'Z' || '0' <= c <= '9') ==> !lower,
{
    c.is_lowercase()
}

/// The character for a decimal digit.
pub open spec fn digit_char(d: nat) -> char {
    ((48 + d) as u32) as char
}

/// The decimal digits of a number, most significant first, with no
/// leading zeros; zero is the single digit `0`.
pub open spec fn decimal(n: nat) -> Seq<char>
    decreases n,
{
    if n < 10 {
        seq![digit_char(n)]
    } else {
        decimal(n / 10).push(digit_char(n % 10))
    }
}

/// A signed number in decimal: a minus sign before the digits of its
/// magnitude when it is negative.
pub open spec fn signed_decimal(n: int) -> Seq<char> {
    if n < 0 {
        seq!['-'] + decimal((-n) as nat)
    } else {
        decimal(n as nat)
    }
}

pub proof fn lemma_decimal_nonempty(n: nat)
    ensures
        decimal(n).len() >= 1,
    decreases n,
{
    if n >= 10 {
        lemma_decimal_nonempty(n / 10);
    }
}

fn digit(d: u64) -> (c: char)
    requires
        d < 10,
    ensures
        c == digit_char(d as nat),
{
    let b: u8 = d as u8 + 48u8;
    b as char
}

/// Appends a number's decimal digits.
pub fn push_decimal(s: &mut String, n: u64)
    ensures
        final(s)@ == old(s)@ + decimal(n as nat),
    decreases n,
{
    if n < 10 {
        push_char(s, digit(n));
        assert(decimal(n as nat) == seq![digit_char(n as nat)]);
    } else {
        push_decimal(s, n / 10);
        push_char(s, digit(n % 10));
    }
}

/// Appends a signed number in decimal.
pub fn push_signed_decimal(s: &mut String, n: i64)
    ensures
        final(s)@ == old(s)@ + signed_decimal(n as int),
{
    if n < 0 {
        push_char(s, '-');
        let magnitude: u64 = if n == i64::MIN {
            9223372036854775808u64
        } else {
            (-n) as u64
        };
        push_decimal(s, magnitude);
        assert(s@ == old(s)@ + (seq!['-'] + decimal((-n) as nat)));
    } else {
        push_decimal(s, n as u64);
    }
}

/// A number written in decimal.
pub fn decimal_string(n: u64) -> (s: String)
    ensures
        s@ == decimal(n as nat),
{
    let mut s = String::new();
    push_decimal(&mut s, n);
    assert(s@ == Seq::<char>::empty() + decimal(n as nat));
    s
}

} // verus!
