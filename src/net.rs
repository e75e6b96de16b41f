//! The text of network endpoints: decimal numbers with a bound, fields
//! between separators, and the spellings of the IPv6 loopback address.

use vstd::prelude::*;
use crate::text::{all_digits, digits_value, is_digit, lemma_digits_value_prefix};

verus! {

/// A non-empty run of decimal digits worth at most `limit`; leading zeros
/// are allowed.
pub open spec fn is_bounded_decimal(s: Seq<char>, limit: int) -> bool {
    s.len() > 0 && all_digits(s) && digits_value(s) <= limit
}

/// The value of a non-empty run of digits worth at most `limit`.
pub fn bounded_value(v: &Vec<char>, limit: u64) -> (r: Option<u64>)
    requires
        limit <= 4294967295,
    ensures
        r is Some <==> is_bounded_decimal(v@, limit as int),
        r matches Some(x) ==> x as int == digits_value(v@),
{
    if v.len() == 0 {
        return None;
    }
    let mut acc: u64 = 0;
    let mut i: usize = 0;
    while i < v.len()
        invariant
            i <= v@.len(),
            limit <= 4294967295,
            all_digits(v@.subrange(0, i as int)),
            acc as int == digits_value(v@.subrange(0, i as int)),
            acc <= limit,
        decreases v@.len() - i,
    {
        let c = v[i];
        if !('0' <= c && c <= '9') {
            assert(!all_digits(v@)) by {
                assert(v@[i as int] == c);
            }
            return None;
        }
        let ghost prev = v@.subrange(0, i as int);
        let ghost next = v@.subrange(0, i + 1);
        assert(next.drop_last() == prev);
        assert(next.last() == c);
        assert(all_digits(next)) by {
            assert forall|k: int| 0 <= k < next.len() implies is_digit(#[trigger] next[k]) by {
                if k < prev.len() {
                    assert(next[k] == prev[k]);
                }
            }
        }
        let d: u64 = (c as u32 - '0' as u32) as u64;
        assert(acc * 10 <= 42949672950) by (nonlinear_arith)
            requires
                acc <= limit,
                limit <= 4294967295,
        ;
        acc = acc * 10 + d;
        if acc > limit {
            proof {
                if all_digits(v@) {
                    lemma_digits_value_prefix(v@, i + 1);
                }
            }
            return None;
        }
        i = i + 1;
    }
    assert(v@.subrange(0, i as int) == v@);
    Some(acc)
}

/// The fields of `s[i..]` between the separators `c` (empty ones kept),
/// after the fields `acc` and the unfinished field `cur`.
pub open spec fn fields_from(s: Seq<char>, c: char, i: int, cur: Seq<char>, acc: Seq<Seq<char>>) -> Seq<Seq<char>>
    decreases s.len() - i,
{
    if i >= s.len() {
        acc.push(cur)
    } else if s[i] == c {
        fields_from(s, c, i + 1, Seq::empty(), acc.push(cur))
    } else {
        fields_from(s, c, i + 1, cur.push(s[i]), acc)
    }
}

/// The fields of `s` between the separators `c`: one more than there are
/// separators, empty ones included.
pub open spec fn fields(s: Seq<char>, c: char) -> Seq<Seq<char>> {
    fields_from(s, c, 0, Seq::empty(), Seq::empty())
}

pub open spec fn char_views(v: Seq<Vec<char>>) -> Seq<Seq<char>> {
    v.map_values(|x: Vec<char>| x@)
}

/// The characters `v[from..to]`.
pub fn sub_vec(v: &Vec<char>, from: usize, to: usize) -> (r: Vec<char>)
    requires
        from <= to <= v@.len(),
    ensures
        r@ == v@.subrange(from as int, to as int),
{
    let mut r: Vec<char> = Vec::new();
    let mut i: usize = from;
    while i < to
        invariant
            from <= i <= to <= v@.len(),
            r@ == v@.subrange(from as int, i as int),
        decreases to - i,
    {
        r.push(v[i]);
        assert(v@.subrange(from as int, i + 1) == v@.subrange(from as int, i as int).push(v@[i as int]));
        i = i + 1;
    }
    r
}

/// Cuts `v` into its fields between the separators `c`.
pub fn split_fields(v: &Vec<char>, c: char) -> (r: Vec<Vec<char>>)
    ensures
        char_views(r@) == fields(v@, c),
{
    let mut acc: Vec<Vec<char>> = Vec::new();
    let mut start: usize = 0;
    let mut i: usize = 0;
    assert(v@.subrange(0, 0) =~= Seq::<char>::empty());
    assert(char_views(acc@) =~= Seq::<Seq<char>>::empty());
    while i < v.len()
        invariant
            start <= i <= v@.len(),
            fields(v@, c) == fields_from(v@, c, i as int, v@.subrange(start as int, i as int), char_views(acc@)),
        decreases v@.len() - i,
    {
        if v[i] == c {
            let piece = sub_vec(v, start, i);
            let ghost before = acc@;
            acc.push(piece);
            assert(char_views(acc@) =~= char_views(before).push(piece@));
            assert(v@.subrange(i + 1, i + 1) =~= Seq::<char>::empty());
            start = i + 1;
        } else {
            assert(v@.subrange(start as int, i + 1) =~= v@.subrange(start as int, i as int).push(v@[i as int]));
        }
        i = i + 1;
    }
    let piece = sub_vec(v, start, i);
    let ghost before = acc@;
    acc.push(piece);
    assert(char_views(acc@) =~= char_views(before).push(piece@));
    acc
}

} // verus!
