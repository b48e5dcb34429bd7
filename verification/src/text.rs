//! Small operations on strings that the URL model needs, over their views as
//! sequences of characters.

use vstd::prelude::*;
use vstd::std_specs::iter::IteratorSpec;

verus! {

/// `s` without its first `n` characters.
pub open spec fn after(s: Seq<char>, n: nat) -> Seq<char> {
    s.skip(n as int)
}

/// Whether the two strings hold the same characters.
pub fn same_text(a: &str, b: &str) -> (same: bool)
    ensures
        same == (a@ == b@),
{
    let mut left = a.chars();
    let mut right = b.chars();
    let ghost mut i: int = 0;
    loop
        invariant
            0 <= i <= a@.len(),
            i <= b@.len(),
            left.remaining() == a@.skip(i),
            right.remaining() == b@.skip(i),
            a@.take(i) == b@.take(i),
        decreases a@.len() - i,
    {
        let x = left.next();
        let y = right.next();
        match (x, y) {
            (Some(c), Some(d)) => {
                if c != d {
                    assert(a@[i] != b@[i]);
                    return false;
                }
                proof {
                    assert(a@.take(i + 1) =~= a@.take(i).push(a@[i]));
                    assert(b@.take(i + 1) =~= b@.take(i).push(b@[i]));
                    i = i + 1;
                }
            },
            (None, None) => {
                proof {
                    assert(a@.take(i) =~= a@);
                    assert(b@.take(i) =~= b@);
                }
                return true;
            },
            _ => {
                assert(a@.len() != b@.len());
                return false;
            },
        }
    }
}

/// Removes `prefix` from the front of `s`, if `s` begins with it.
pub fn strip_prefix<'a>(s: &'a str, prefix: &str) -> (rest: Option<&'a str>)
    ensures
        rest is Some == prefix@.is_prefix_of(s@),
        rest matches Some(r) ==> r@ == after(s@, prefix@.len()),
{
    let mut whole = s.chars();
    let mut head = prefix.chars();
    let mut i: usize = 0;
    let n = s.unicode_len();
    loop
        invariant
            n == s@.len(),
            0 <= i <= n,
            i <= prefix@.len(),
            whole.remaining() == s@.skip(i as int),
            head.remaining() == prefix@.skip(i as int),
            s@.take(i as int) == prefix@.take(i as int),
        decreases prefix@.len() - i,
    {
        match head.next() {
            None => {
                proof {
                    assert(prefix@.take(i as int) =~= prefix@);
                    assert(s@.take(i as int) =~= s@.subrange(0, prefix@.len() as int));
                }
                return Some(s.substring_char(i, n));
            },
            Some(p) => {
                match whole.next() {
                    None => {
                        return None;
                    },
                    Some(c) => {
                        if c != p {
                            proof {
                                if prefix@.is_prefix_of(s@) {
                                    assert(s@.subrange(0, prefix@.len() as int)[i as int]
                                        == prefix@[i as int]);
                                }
                            }
                            return None;
                        }
                        proof {
                            assert(s@.take(i + 1) =~= s@.take(i as int).push(s@[i as int]));
                            assert(prefix@.take(i + 1) =~= prefix@.take(i as int).push(
                                prefix@[i as int],
                            ));
                        }
                        i = i + 1;
                    },
                }
            },
        }
    }
}

} // verus!
