//! Joining path fragments with '/', as text.

use vstd::prelude::*;
use crate::text::{chars_of, push_char, push_chars, push_str};

verus! {

/// `a` and `b` joined with exactly one '/' between them; an empty side gives
/// the other.
pub open spec fn join_path_spec(a: Seq<char>, b: Seq<char>) -> Seq<char> {
    if a.len() == 0 {
        b
    } else if b.len() == 0 {
        a
    } else if a.last() == '/' && b[0] == '/' {
        a + b.drop_first()
    } else if a.last() == '/' || b[0] == '/' {
        a + b
    } else {
        a + seq!['/'] + b
    }
}

/// Joins two path fragments.
pub fn join_path(a: &str, b: &str) -> (r: String)
    ensures
        r@ == join_path_spec(a@, b@),
{
    let n = a.unicode_len();
    let m = b.unicode_len();
    if n == 0 {
        return String::from_str(b);
    }
    if m == 0 {
        return String::from_str(a);
    }
    let a_slash = a.get_char(n - 1) == '/';
    let b_slash = b.get_char(0) == '/';
    let mut r = String::from_str(a);
    if a_slash && b_slash {
        let v = chars_of(b);
        push_chars(&mut r, &v, 1, m);
        assert(v@.subrange(1, m as int) =~= b@.drop_first());
    } else if a_slash || b_slash {
        push_str(&mut r, b);
    } else {
        push_char(&mut r, '/');
        push_str(&mut r, b);
    }
    assert(r@ =~= join_path_spec(a@, b@));
    r
}

} // verus!
