//! Small text helpers: building messages out of pieces, and decimal numbers.
use vstd::prelude::*;

verus! {

/// The decimal digit character for `d` (`0 <= d < 10`)
pub open spec fn digit_char(d: nat) -> char {
    (48 + d) as char
}

/// The decimal representation of `n`, without sign or leading zeros
pub open spec fn decimal(n: nat) -> Seq<char>
    decreases n,
{
    if n < 10 {
        seq![digit_char(n)]
    } else {
        decimal(n / 10).push(digit_char(n % 10))
    }
}

/// Format an unsigned integer in decimal, one digit at a time
pub(crate) fn usize_to_string(n: usize) -> (s: String)
    ensures
        s@ == decimal(n as nat),
    decreases n,
{
    if n < 10 {
        let mut s = "".to_owned();
        proof {
            reveal_strlit("");
        }
        push_digit(&mut s, n as u8);
        proof {
            assert(s@ =~= seq![digit_char(n as nat)]);
        }
        s
    } else {
        let mut s = usize_to_string(n / 10);
        push_digit(&mut s, (n % 10) as u8);
        s
    }
}

/// Append `t` at the end of `s`
pub(crate) fn push_str(s: &mut String, t: &str)
    ensures
        final(s)@ == old(s)@ + t@,
{
    s.append(t)
}

/// Append the character `c` at the end of `s`, through `String::push`
#[verifier::external_body]
pub(crate) fn push_char(s: &mut String, c: char)
    ensures
        final(s)@ == old(s)@.push(c),
{
    s.push(c)
}

/// The concatenation of three pieces of text, as a new `String`
pub(crate) fn concat3(a: &str, b: &str, c: &str) -> (s: String)
    ensures
        s@ == a@ + b@ + c@,
{
    let mut s = a.to_owned();
    push_str(&mut s, b);
    push_str(&mut s, c);
    s
}

/// The code of a character, with ASCII upper case letters mapped to lower case
pub open spec fn ascii_lower_code(c: char) -> u32 {
    if 'A' <= c && c <= 'Z' {
        (c as u32 + 32) as u32
    } else {
        c as u32
    }
}

/// The codes of a text, with ASCII upper case letters mapped to lower case
pub open spec fn ascii_lower_codes(s: Seq<char>) -> Seq<u32> {
    s.map_values(|c: char| ascii_lower_code(c))
}

/// Whether two texts are equal
pub(crate) fn chars_eq(a: &Vec<char>, b: &Vec<char>) -> (r: bool)
    ensures
        r == (a@ == b@),
{
    if a.len() != b.len() {
        return false;
    }
    let mut i: usize = 0;
    while i < a.len()
        invariant
            a@.len() == b@.len(),
            i <= a@.len(),
            forall|k: int| 0 <= k < i ==> a@[k] == b@[k],
        decreases a@.len() - i,
    {
        if a[i] != b[i] {
            return false;
        }
        i = i + 1;
    }
    assert(a@ =~= b@);
    true
}

fn lower_code(c: char) -> (r: u32)
    ensures
        r == ascii_lower_code(c),
{
    if 'A' <= c && c <= 'Z' {
        (c as u32) + 32
    } else {
        c as u32
    }
}

/// Whether two texts are equal when ASCII letters are compared without case
pub(crate) fn chars_eq_ignore_ascii_case(a: &Vec<char>, b: &Vec<char>) -> (r: bool)
    ensures
        r == (ascii_lower_codes(a@) == ascii_lower_codes(b@)),
{
    if a.len() != b.len() {
        return false;
    }
    let mut i: usize = 0;
    while i < a.len()
        invariant
            a@.len() == b@.len(),
            i <= a@.len(),
            forall|k: int| 0 <= k < i ==> ascii_lower_code(a@[k]) == ascii_lower_code(b@[k]),
        decreases a@.len() - i,
    {
        if lower_code(a[i]) != lower_code(b[i]) {
            assert(ascii_lower_codes(a@)[i as int] != ascii_lower_codes(b@)[i as int]);
            return false;
        }
        i = i + 1;
    }
    assert(ascii_lower_codes(a@) =~= ascii_lower_codes(b@));
    true
}

/// The decimal text of `n + 1`
pub(crate) fn decimal_succ(n: usize) -> (s: String)
    ensures
        s@ == decimal(n as nat + 1),
{
    if n < usize::MAX {
        usize_to_string(n + 1)
    } else {
        // `n + 1` does not fit: its last digit is written apart from the others
        let q = n / 10;
        let r = n % 10;
        proof {
            assert(n as nat + 1 == 10 * q + r + 1) by (nonlinear_arith)
                requires
                    q == n / 10,
                    r == n % 10,
            ;
            lemma_decimal_split(n as nat + 1);
        }
        if r < 9 {
            let mut s = usize_to_string(q);
            proof {
                assert((n as nat + 1) / 10 == q && (n as nat + 1) % 10 == r + 1) by (nonlinear_arith)
                    requires
                        n as nat + 1 == 10 * q + r + 1,
                        r < 9,
                ;
            }
            push_digit(&mut s, (r + 1) as u8);
            s
        } else {
            let mut s = usize_to_string(q + 1);
            proof {
                assert((n as nat + 1) / 10 == q + 1 && (n as nat + 1) % 10 == 0) by (nonlinear_arith)
                    requires
                        n as nat + 1 == 10 * q + r + 1,
                        r == 9,
                ;
            }
            push_digit(&mut s, 0);
            s
        }
    }
}

proof fn lemma_decimal_split(m: nat)
    requires
        m >= 10,
    ensures
        decimal(m) == decimal(m / 10).push(digit_char(m % 10)),
{
}

/// Append the decimal digit `d` (`d < 10`)
fn push_digit(s: &mut String, d: u8)
    requires
        d < 10,
    ensures
        final(s)@ == old(s)@.push(digit_char(d as nat)),
{
    let c = match d {
        0 => '0',
        1 => '1',
        2 => '2',
        3 => '3',
        4 => '4',
        5 => '5',
        6 => '6',
        7 => '7',
        8 => '8',
        _ => '9',
    };
    push_char(s, c);
}


} // verus!
