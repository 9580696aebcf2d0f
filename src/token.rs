use vstd::prelude::*;
use vstd::string::*;

verus! {

/// A token is flag-shaped when it starts with a dash.
pub open spec fn is_flag_token(t: Seq<char>) -> bool {
    t.len() > 0 && t[0] == '-'
}

/// A token names a long flag when it starts with two dashes.
pub open spec fn is_long_token(t: Seq<char>) -> bool {
    t.len() > 1 && t[0] == '-' && t[1] == '-'
}

/// The name carried by a long-flag token: everything after the two dashes.
pub open spec fn long_name(t: Seq<char>) -> Seq<char> {
    t.skip(2)
}

/// The character a short-flag token names: the one right after the dash.
pub open spec fn short_char(t: Seq<char>) -> Option<char> {
    if t.len() > 1 {
        Some(t[1])
    } else {
        None
    }
}

/// Whether a token begins with `-` (and so is read as a flag, not a value).
pub fn looks_like_flag(token: &str) -> (r: bool)
    ensures
        r == is_flag_token(token@),
{
    token.unicode_len() > 0 && token.get_char(0) == '-'
}

/// Whether a token begins with `--`.
pub(crate) fn looks_like_long_flag(token: &str) -> (r: bool)
    ensures
        r == is_long_token(token@),
{
    token.unicode_len() > 1 && token.get_char(0) == '-' && token.get_char(1) == '-'
}

/// Whether two character sequences are equal, compared one character at a time.
pub(crate) fn str_eq(a: &str, b: &str) -> (r: bool)
    ensures
        r == (a@ == b@),
{
    let n = a.unicode_len();
    if n != b.unicode_len() {
        return false;
    }
    let mut i: usize = 0;
    while i < n
        invariant
            n == a@.len(),
            n == b@.len(),
            i <= n,
            forall|j: int| 0 <= j < i ==> a@[j] == b@[j],
        decreases n - i,
    {
        if a.get_char(i) != b.get_char(i) {
            return false;
        }
        i = i + 1;
    }
    assert(a@ =~= b@);
    true
}

} // verus!
