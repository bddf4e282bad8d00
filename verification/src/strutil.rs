//! String and digit helpers shared by the whole library.
//!
//! Everything here works on `char` sequences, the view Verus gives to
//! `String` and `&str`, so the other modules can state their contracts
//! over `Seq<char>` directly.

use vstd::prelude::*;
use vstd::string::*;

verus! {

/// The decimal digit character for a value below ten.
pub open spec fn digit_char(d: nat) -> char {
    if d == 0 {
        '0'
    } else if d == 1 {
        '1'
    } else if d == 2 {
        '2'
    } else if d == 3 {
        '3'
    } else if d == 4 {
        '4'
    } else if d == 5 {
        '5'
    } else if d == 6 {
        '6'
    } else if d == 7 {
        '7'
    } else if d == 8 {
        '8'
    } else {
        '9'
    }
}

/// The decimal digit characters of a natural number, most significant first.
pub open spec fn dec_digits(n: nat) -> Seq<char>
    decreases n,
{
    if n < 10 {
        seq![digit_char(n)]
    } else {
        dec_digits(n / 10).push(digit_char(n % 10))
    }
}

pub fn digit_to_char(d: u8) -> (c: char)
    requires
        d < 10,
    ensures
        c == digit_char(d as nat),
{
    if d == 0 {
        '0'
    } else if d == 1 {
        '1'
    } else if d == 2 {
        '2'
    } else if d == 3 {
        '3'
    } else if d == 4 {
        '4'
    } else if d == 5 {
        '5'
    } else if d == 6 {
        '6'
    } else if d == 7 {
        '7'
    } else if d == 8 {
        '8'
    } else {
        '9'
    }
}

/// Relies on std's `String::push`: appends one character at the end.
#[verifier::external_body]
pub fn push_char(s: &mut String, c: char)
    ensures
        final(s)@ == old(s)@.push(c),
{
    s.push(c)
}

/// Builds a `String` whose view is exactly the given character sequence.
pub fn chars_to_string(v: &Vec<char>) -> (r: String)
    ensures
        r@ == v@,
{
    let mut r = String::new();
    let mut i: usize = 0;
    while i < v.len()
        invariant
            i <= v@.len(),
            r@ == v@.subrange(0, i as int),
        decreases v@.len() - i,
    {
        push_char(&mut r, v[i]);
        i += 1;
        assert(r@ =~= v@.subrange(0, i as int));
    }
    assert(v@.subrange(0, v@.len() as int) =~= v@);
    r
}

/// Collects the characters of a string slice into a vector with the same view.
pub fn str_to_chars(s: &str) -> (r: Vec<char>)
    ensures
        r@ == s@,
{
    let n = s.unicode_len();
    let mut r: Vec<char> = Vec::new();
    let mut i: usize = 0;
    while i < n
        invariant
            n == s@.len(),
            i <= n,
            r@ == s@.subrange(0, i as int),
        decreases n - i,
    {
        let c = s.get_char(i);
        r.push(c);
        i += 1;
        assert(r@ =~= s@.subrange(0, i as int));
    }
    assert(s@.subrange(0, n as int) =~= s@);
    r
}

/// Tests whether two string slices spell the same text.
pub fn str_eq(a: &str, b: &str) -> (r: bool)
    ensures
        r == (a@ == b@),
{
    let n = a.unicode_len();
    let m = b.unicode_len();
    if n != m {
        assert(a@ != b@);
        return false;
    }
    let mut i: usize = 0;
    while i < n
        invariant
            i <= n,
            n == a@.len() == b@.len(),
            forall|k: int| 0 <= k < i ==> a@[k] == b@[k],
        decreases n - i,
    {
        if a.get_char(i) != b.get_char(i) {
            assert(a@ != b@);
            return false;
        }
        i += 1;
    }
    proof {
        assert(a@ =~= b@);
    }
    true
}

/// The decimal digit characters of an unsigned value, most significant first.
pub fn u128_to_dec_chars(n: u128) -> (r: Vec<char>)
    ensures
        r@ == dec_digits(n as nat),
{
    let mut tmp: Vec<char> = Vec::new();
    let mut m: u128 = n;
    if m == 0 {
        let mut r: Vec<char> = Vec::new();
        r.push('0');
        assert(r@ =~= dec_digits(0));
        return r;
    }
    while m > 0
        invariant
            m > 0 ==> dec_digits(n as nat) =~= dec_digits(m as nat) + tmp@.reverse(),
            m == 0 ==> dec_digits(n as nat) =~= tmp@.reverse(),
        decreases m,
    {
        let ghost old_tmp = tmp@;
        let ghost old_m = m as nat;
        let d: u8 = (m % 10) as u8;
        tmp.push(digit_to_char(d));
        m = m / 10;
        proof {
            assert(tmp@.reverse() =~= seq![digit_char(old_m % 10)] + old_tmp.reverse());
            if old_m >= 10 {
                assert(dec_digits(old_m) == dec_digits(old_m / 10).push(digit_char(old_m % 10)));
                assert(dec_digits(old_m / 10).push(digit_char(old_m % 10)) + old_tmp.reverse()
                    =~= dec_digits(old_m / 10) + (seq![digit_char(old_m % 10)] + old_tmp.reverse()));
            } else {
                assert(dec_digits(old_m) =~= seq![digit_char(old_m)]);
                assert(seq![digit_char(old_m)] + old_tmp.reverse()
                    =~= seq![digit_char(old_m % 10)] + old_tmp.reverse());
            }
        }
    }
    let mut r: Vec<char> = Vec::new();
    let mut i: usize = tmp.len();
    while i > 0
        invariant
            i <= tmp@.len(),
            r@.len() == tmp@.len() - i,
            forall|j: int| 0 <= j < r@.len() ==> r@[j] == tmp@[tmp@.len() - 1 - j],
        decreases i,
    {
        i -= 1;
        r.push(tmp[i]);
    }
    assert(r@ =~= tmp@.reverse());
    r
}

} // verus!
