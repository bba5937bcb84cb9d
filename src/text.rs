use vstd::prelude::*;
use vstd::string::*;

verus! {

/// The character of a decimal digit.
pub open spec fn digit_char(d: nat) -> char {
    if d == 0 {
        '0'
    } else if d == 1 {
        '1'
    } else if d == 2 {
        '2'
    } else if d == 3 {
        '3'
    } else if d == 4 {
        '4'
    } else if d == 5 {
        '5'
    } else if d == 6 {
        '6'
    } else if d == 7 {
        '7'
    } else if d == 8 {
        '8'
    } else {
        '9'
    }
}

/// The decimal digits of `n`, without sign or leading zeros.
pub open spec fn decimal(n: nat) -> Seq<char>
    decreases n,
{
    if n < 10 {
        seq![digit_char(n)]
    } else {
        decimal(n / 10).push(digit_char(n % 10))
    }
}

/// The numbers of `s` in decimal, separated by `", "`.
pub open spec fn joined(s: Seq<u64>) -> Seq<char>
    decreases s.len(),
{
    if s.len() == 0 {
        Seq::empty()
    } else if s.len() == 1 {
        decimal(s[0] as nat)
    } else {
        joined(s.drop_last()) + ", "@ + decimal(s.last() as nat)
    }
}

/// A list of numbers written as `[1, 2, 3]`.
pub open spec fn list_text(s: Seq<u64>) -> Seq<char> {
    "["@ + joined(s) + "]"@
}

/// Relies on `u64`'s `Display` (through `to_string`): the decimal digits,
/// without sign or leading zeros.
#[verifier::external_body]
pub(crate) fn to_decimal(n: u64) -> (r: String)
    ensures
        r@ == decimal(n as nat),
{
    n.to_string()
}

/// Writes a list of numbers as `[1, 2, 3]`.
pub(crate) fn list_debug(v: &Vec<u64>) -> (r: String)
    ensures
        r@ == list_text(v@),
{
    let mut s = String::from_str("[");
    let mut i: usize = 0;
    while i < v.len()
        invariant
            i <= v@.len(),
            s@ == "["@ + joined(v@.subrange(0, i as int)),
        decreases v@.len() - i,
    {
        let ghost sub = v@.subrange(0, i as int + 1);
        assert(sub.drop_last() =~= v@.subrange(0, i as int));
        assert(sub.last() == v@[i as int]);
        if i > 0 {
            s.append(", ");
        }
        let d = to_decimal(v[i]);
        s.append(d.as_str());
        proof {
            if i == 0 {
                assert(v@.subrange(0, 0) =~= Seq::<u64>::empty());
                assert(sub[0] == v@[0]);
            }
            assert(s@ =~= "["@ + joined(sub));
        }
        i = i + 1;
    }
    s.append("]");
    assert(v@.subrange(0, v@.len() as int) =~= v@);
    s
}

/// Unicode's White_Space property, the set `char::is_whitespace` tests.
pub open spec fn is_white_space(c: char) -> bool {
    let u = c as u32;
    (0x9 <= u && u <= 0xd) || u == 0x20 || u == 0x85 || u == 0xa0 || u == 0x1680 || (0x2000 <= u
        && u <= 0x200a) || u == 0x2028 || u == 0x2029 || u == 0x202f || u == 0x205f || u == 0x3000
}

/// Whether `c` has Unicode's White_Space property, as
/// `char::is_whitespace` tells.
fn char_is_whitespace(c: char) -> (r: bool)
    ensures
        r == is_white_space(c),
{
    let u = c as u32;
    (0x9 <= u && u <= 0xd) || u == 0x20 || u == 0x85 || u == 0xa0 || u == 0x1680 || (0x2000 <= u
        && u <= 0x200a) || u == 0x2028 || u == 0x2029 || u == 0x202f || u == 0x205f || u == 0x3000
}

/// A text made of white space alone, the empty text included.
pub open spec fn is_blank(s: Seq<char>) -> bool {
    forall|i: int| 0 <= i < s.len() ==> is_white_space(#[trigger] s[i])
}

/// Whether `s` holds nothing but white space: what `s.trim().is_empty()`
/// tells.
pub fn blank(s: &str) -> (r: bool)
    ensures
        r == is_blank(s@),
{
    let n = s.unicode_len();
    let mut i: usize = 0;
    while i < n
        invariant
            n == s@.len(),
            i <= n,
            forall|j: int| 0 <= j < i ==> is_white_space(#[trigger] s@[j]),
        decreases n - i,
    {
        if !char_is_whitespace(s.get_char(i)) {
            return false;
        }
        i = i + 1;
    }
    true
}

/// `a`, an arrow, then `b`: how a changed field is described.
pub open spec fn change_text(a: Seq<char>, b: Seq<char>) -> Seq<char> {
    a + " -> "@ + b
}

pub(crate) fn change_string(a: &str, b: &str) -> (r: String)
    ensures
        r@ == change_text(a@, b@),
{
    let mut s = String::from_str(a);
    s.append(" -> ");
    s.append(b);
    s
}

} // verus!
