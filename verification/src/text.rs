//! Small verified string helpers shared by the writers.
use vstd::prelude::*;

verus! {

/// Appends one character to a string.
///
/// Wraps `String::push`, whose documentation says it appends the given char
/// to the end of the string; nothing else about the string changes.
#[verifier::external_body]
pub(crate) fn push_char(s: &mut String, c: char)
    ensures
        final(s)@ == old(s)@.push(c),
{
    s.push(c);
}

/// Whether two string slices hold the same characters.
pub fn str_eq(a: &str, b: &str) -> (r: bool)
    ensures
        r == (a@ == b@),
{
    let n = a.unicode_len();
    let m = b.unicode_len();
    if n != m {
        return false;
    }
    let mut i: usize = 0;
    while i < n
        invariant
            n == a@.len(),
            m == b@.len(),
            n == m,
            i <= n,
            forall|j: int| 0 <= j < i ==> a@[j] == b@[j],
        decreases n - i,
    {
        if a.get_char(i) != b.get_char(i) {
            return false;
        }
        i = i + 1;
    }
    assert(a@ =~= b@);
    true
}

/// Copies a string slice into a new `String`.
pub fn to_owned_string(s: &str) -> (r: String)
    ensures
        r@ == s@,
{
    let mut r = String::new();
    r.append(s);
    assert(r@ =~= s@);
    r
}

/// The character sequence with every `from` replaced by `to`.
pub open spec fn replace_char(s: Seq<char>, from: char, to: char) -> Seq<char> {
    Seq::new(s.len(), |i: int| if s[i] == from { to } else { s[i] })
}

/// Replaces every occurrence of one character by another.
pub fn replace_char_in(s: &str, from: char, to: char) -> (r: String)
    ensures
        r@ == replace_char(s@, from, to),
{
    let n = s.unicode_len();
    let mut r = String::new();
    let mut i: usize = 0;
    while i < n
        invariant
            n == s@.len(),
            i <= n,
            r@ =~= replace_char(s@, from, to).take(i as int),
        decreases n - i,
    {
        let c = s.get_char(i);
        if c == from {
            push_char(&mut r, to);
        } else {
            push_char(&mut r, c);
        }
        i = i + 1;
    }
    assert(replace_char(s@, from, to).take(n as int) =~= replace_char(s@, from, to));
    r
}

/// The decimal digits of a natural number, most significant first.
pub open spec fn nat_digits(n: nat) -> Seq<char>
    decreases n,
{
    if n < 10 {
        seq![digit_char(n)]
    } else {
        nat_digits(n / 10).push(digit_char(n % 10))
    }
}

/// The ASCII digit for a value below ten.
pub open spec fn digit_char(d: nat) -> char {
    if d == 0 { '0' }
    else if d == 1 { '1' }
    else if d == 2 { '2' }
    else if d == 3 { '3' }
    else if d == 4 { '4' }
    else if d == 5 { '5' }
    else if d == 6 { '6' }
    else if d == 7 { '7' }
    else if d == 8 { '8' }
    else { '9' }
}

/// The decimal text of an integer, as Rust's `Display` prints it:
/// a leading `-` for negative values, no leading zeros.
pub open spec fn int_text(x: int) -> Seq<char> {
    if x < 0 {
        seq!['-'] + nat_digits((-x) as nat)
    } else {
        nat_digits(x as nat)
    }
}

fn digit_of(d: u64) -> (c: char)
    requires
        d < 10,
    ensures
        c == digit_char(d as nat),
{
    if d == 0 { '0' }
    else if d == 1 { '1' }
    else if d == 2 { '2' }
    else if d == 3 { '3' }
    else if d == 4 { '4' }
    else if d == 5 { '5' }
    else if d == 6 { '6' }
    else if d == 7 { '7' }
    else if d == 8 { '8' }
    else { '9' }
}

fn push_nat_digits(out: &mut String, n: u64)
    ensures
        final(out)@ == old(out)@ + nat_digits(n as nat),
    decreases n,
{
    if n < 10 {
        push_char(out, digit_of(n));
        assert(nat_digits(n as nat) =~= seq![digit_char(n as nat)]);
    } else {
        push_nat_digits(out, n / 10);
        push_char(out, digit_of(n % 10));
        assert(nat_digits(n as nat) =~= nat_digits((n / 10) as nat).push(digit_char((n % 10) as nat)));
    }
}

/// Appends the decimal text of an `i32`.
pub fn push_i32_text(out: &mut String, x: i32)
    ensures
        final(out)@ == old(out)@ + int_text(x as int),
{
    if x < 0 {
        push_char(out, '-');
        let m: u64 = (0i64 - (x as i64)) as u64;
        push_nat_digits(out, m);
        assert(int_text(x as int) =~= seq!['-'] + nat_digits(m as nat));
    } else {
        push_nat_digits(out, x as u64);
    }
}

} // verus!
