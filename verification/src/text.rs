//! Characters and character sequences: the vocabulary the parser and the
//! hint lookup are stated in.

use vstd::prelude::*;
use vstd::string::*;

verus! {

/// Whether `c` separates words: the characters Unicode marks as white space.
pub open spec fn is_whitespace(c: char) -> bool {
    let n = c as u32;
    ||| 0x09 <= n <= 0x0D
    ||| n == 0x20
    ||| n == 0x85
    ||| n == 0xA0
    ||| n == 0x1680
    ||| 0x2000 <= n <= 0x200A
    ||| n == 0x2028
    ||| n == 0x2029
    ||| n == 0x202F
    ||| n == 0x205F
    ||| n == 0x3000
}

/// Executable form of [`is_whitespace`].
pub fn whitespace(c: char) -> (b: bool)
    ensures
        b == is_whitespace(c),
{
    let n: u32 = c as u32;
    (0x09 <= n && n <= 0x0D) || n == 0x20 || n == 0x85 || n == 0xA0 || n == 0x1680 || (0x2000 <= n
        && n <= 0x200A) || n == 0x2028 || n == 0x2029 || n == 0x202F || n == 0x205F || n == 0x3000
}

/// The characters of `s`, in order.
pub fn to_chars(s: &str) -> (chars: Vec<char>)
    ensures
        chars@ == s@,
{
    let mut chars: Vec<char> = Vec::new();
    for c in it: s.chars()
        invariant
            it.seq() == s@,
            chars@ == it.seq().take(it.index()),
    {
        chars.push(c);
    }
    chars
}

/// Whether `text` begins with `prefix`.
pub fn starts_with(text: &Vec<char>, prefix: &Vec<char>) -> (b: bool)
    ensures
        b == prefix@.is_prefix_of(text@),
{
    if prefix.len() > text.len() {
        return false;
    }
    let mut i: usize = 0;
    while i < prefix.len()
        invariant
            i <= prefix.len() <= text.len(),
            forall|j: int| 0 <= j < i ==> text@[j] == prefix@[j],
        decreases prefix.len() - i,
    {
        if text[i] != prefix[i] {
            return false;
        }
        i += 1;
    }
    assert(text@.subrange(0, prefix@.len() as int) =~= prefix@);
    true
}

/// Whether `a` and `b` hold the same characters.
pub fn same_text(a: &str, b: &str) -> (same: bool)
    ensures
        same == (a@ == b@),
{
    let left = to_chars(a);
    let right = to_chars(b);
    let same = left.len() == right.len() && starts_with(&left, &right);
    proof {
        if same {
            assert(a@ =~= b@);
        }
    }
    same
}

} // verus!
