//! Character and string helpers shared by the game logic: ASCII case
//! folding and appending single characters to an owned string.

use vstd::prelude::*;

verus! {

/// ASCII lower-casing of one character; every character outside `'A'..='Z'`
/// is left as it is. Guesses and stored letters are compared through this.
pub open spec fn spec_lower(c: char) -> char {
    if 'A' <= c && c <= 'Z' {
        ((c as u8) + 32) as char
    } else {
        c
    }
}

/// A single ASCII alphabetic character: the only shape of guess the game
/// accepts, and the only kind of character a manually entered word may hold.
pub open spec fn is_ascii_letter(c: char) -> bool {
    ('a' <= c && c <= 'z') || ('A' <= c && c <= 'Z')
}

/// Executable ASCII lower-casing, matching `spec_lower`.
pub fn to_lower(c: char) -> (r: char)
    ensures
        r == spec_lower(c),
{
    if 'A' <= c && c <= 'Z' {
        (((c as u8) + 32) as char)
    } else {
        c
    }
}

/// Executable test for a single ASCII alphabetic character, matching
/// `is_ascii_letter`.
pub fn is_letter(c: char) -> (r: bool)
    ensures
        r == is_ascii_letter(c),
{
    ('a' <= c && c <= 'z') || ('A' <= c && c <= 'Z')
}

/// Whether the character sequence contains the given character.
pub fn contains_char(v: &Vec<char>, c: char) -> (r: bool)
    ensures
        r == v@.contains(c),
{
    let mut i: usize = 0;
    while i < v.len()
        invariant
            i <= v@.len(),
            forall|j: int| 0 <= j < i ==> v@[j] != c,
        decreases v@.len() - i,
    {
        if v[i] == c {
            return true;
        }
        i += 1;
    }
    false
}

/// Relies on `String::push`: appends the given character to the end of the
/// string.
#[verifier::external_body]
pub fn push_char(s: &mut String, c: char)
    ensures
        final(s)@ == old(s)@.push(c),
{
    s.push(c)
}

/// The decimal digit character for a value below ten.
pub open spec fn dec_digit(d: nat) -> char {
    ((48 + d) as char)
}

/// The decimal rendering of a number, most significant digit first, with
/// no leading zeros (zero itself is `"0"`).
pub open spec fn dec_rep(n: nat) -> Seq<char>
    decreases n,
{
    if n < 10 {
        seq![dec_digit(n)]
    } else {
        dec_rep((n / 10) as nat).push(dec_digit((n % 10) as nat))
    }
}

/// Appending an element and then reversing puts it in front.
proof fn lemma_reverse_push<A>(s: Seq<A>, x: A)
    ensures
        s.push(x).reverse() == seq![x] + s.reverse(),
{
    assert(s.push(x).reverse() =~= seq![x] + s.reverse());
}

/// Renders a number in decimal, as the status footer shows it.
pub fn format_usize(n: usize) -> (r: String)
    ensures
        r@ == dec_rep(n as nat),
{
    let mut digits: Vec<char> = Vec::new();
    let d0 = ((48 + (n % 10) as u8) as char);
    digits.push(d0);
    proof {
        assert(Seq::<char>::empty().push(d0).reverse() =~= seq![d0]);
    }
    let mut m: usize = n / 10;
    while m > 0
        invariant
            m > 0 ==> dec_rep(n as nat) == dec_rep(m as nat) + digits@.reverse(),
            m == 0 ==> dec_rep(n as nat) == digits@.reverse(),
            digits@.len() > 0,
        decreases m,
    {
        let d = ((48 + (m % 10) as u8) as char);
        proof {
            lemma_reverse_push(digits@, d);
        }
        digits.push(d);
        proof {
            if m < 10 {
                assert(dec_rep(m as nat) == seq![dec_digit(m as nat)]);
                assert(dec_rep(n as nat) =~= digits@.reverse());
            } else {
                assert(dec_rep(m as nat) == dec_rep((m / 10) as nat).push(
                    dec_digit((m % 10) as nat),
                ));
                assert(dec_rep((m / 10) as nat).push(dec_digit((m % 10) as nat)) =~= dec_rep(
                    (m / 10) as nat,
                ) + seq![dec_digit((m % 10) as nat)]);
                assert(dec_rep(n as nat) =~= dec_rep((m / 10) as nat) + digits@.reverse());
            }
        }
        m = m / 10;
    }
    let mut r = String::new();
    let ghost rev = digits@.reverse();
    let mut i: usize = digits.len();
    while i > 0
        invariant
            i <= digits@.len(),
            rev == digits@.reverse(),
            r@ == rev.take((digits@.len() - i) as int),
        decreases i,
    {
        i = i - 1;
        push_char(&mut r, digits[i]);
        proof {
            assert(rev[(digits@.len() - i - 1) as int] == digits@[i as int]);
            assert(rev.take((digits@.len() - i) as int) =~= rev.take(
                (digits@.len() - i - 1) as int,
            ).push(digits@[i as int]));
        }
    }
    proof {
        assert(rev.take(digits@.len() as int) =~= rev);
    }
    r
}

} // verus!
