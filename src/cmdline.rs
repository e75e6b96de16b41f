//! The `cmdline` marker a server is started with (its argument vector joined
//! by NUL characters), and the test whether a running server's options differ
//! from the ones requested now.

use vstd::prelude::*;
use vstd::multiset::Multiset;
use crate::text::{chars_of, string_of, str_eq, push_char, push_str, find_char, first_index_of, views, lemma_views_push};

verus! {

broadcast use vstd::seq_lib::group_to_multiset_ensures;

/// The arguments joined with NUL characters between them.
pub open spec fn join_nul(args: Seq<Seq<char>>) -> Seq<char>
    decreases args.len(),
{
    if args.len() == 0 {
        Seq::empty()
    } else if args.len() == 1 {
        args[0]
    } else {
        join_nul(args.drop_last()) + seq!['\0'] + args.last()
    }
}

pub open spec fn has_no_nul(s: Seq<char>) -> bool {
    forall|i: int| 0 <= i < s.len() ==> s[i] != '\0'
}

/// Joins the arguments with NUL characters, the format of the `cmdline`
/// marker file.
pub fn get_argument_string(args: &Vec<String>) -> (r: String)
    ensures
        r@ == join_nul(views(args@)),
{
    let mut r = String::new();
    let mut i: usize = 0;
    while i < args.len()
        invariant
            i <= args@.len(),
            r@ == join_nul(views(args@.subrange(0, i as int))),
        decreases args@.len() - i,
    {
        let ghost prev = views(args@.subrange(0, i as int));
        if i > 0 {
            push_char(&mut r, '\0');
        }
        push_str(&mut r, args[i].as_str());
        proof {
            let next = views(args@.subrange(0, i + 1));
            assert(next =~= prev.push(args@[i as int]@));
            assert(next.drop_last() =~= prev);
            if i == 0 {
                assert(r@ =~= join_nul(next));
            } else {
                assert(r@ =~= join_nul(next));
            }
        }
        i = i + 1;
    }
    assert(args@.subrange(0, i as int) == args@);
    r
}

proof fn lemma_join_nul_extend(p: Seq<Seq<char>>, x: Seq<char>, c: char)
    ensures
        join_nul(p.push(x.push(c))) == join_nul(p.push(x)).push(c),
{
    let a = p.push(x.push(c));
    let b = p.push(x);
    assert(a.drop_last() == p);
    assert(b.drop_last() == p);
    if p.len() == 0 {
        assert(a[0] == x.push(c));
        assert(b[0] == x);
    } else {
        assert(join_nul(a) =~= join_nul(b).push(c));
    }
}

proof fn lemma_join_nul_split(p: Seq<Seq<char>>, x: Seq<char>)
    ensures
        join_nul(p.push(x).push(Seq::empty())) == join_nul(p.push(x)).push('\0'),
{
    let a = p.push(x).push(Seq::<char>::empty());
    assert(a.drop_last() == p.push(x));
    assert(join_nul(a) =~= join_nul(p.push(x)).push('\0'));
}

/// Splits a `cmdline` marker into its arguments. The empty text holds no
/// argument; any other text is cut at each NUL, so joining the pieces again
/// gives it back.
pub fn split_argument_string(s: &str) -> (r: Vec<String>)
    ensures
        s@.len() == 0 ==> r@.len() == 0,
        s@.len() > 0 ==> join_nul(views(r@)) == s@,
        forall|i: int| 0 <= i < r@.len() ==> has_no_nul(#[trigger] r@[i]@),
{
    let v = chars_of(s);
    let mut r: Vec<String> = Vec::new();
    if v.len() == 0 {
        return r;
    }
    let mut start: usize = 0;
    let mut i: usize = 0;
    while i < v.len()
        invariant
            v@ == s@,
            start <= i <= v@.len(),
            join_nul(views(r@).push(v@.subrange(start as int, i as int))) == v@.subrange(0, i as int),
            forall|k: int| 0 <= k < r@.len() ==> has_no_nul(#[trigger] r@[k]@),
            has_no_nul(v@.subrange(start as int, i as int)),
        decreases v@.len() - i,
    {
        if v[i] == '\0' {
            let piece = string_of(&v, start, i);
            proof {
                lemma_views_push(r@, piece);
                lemma_join_nul_split(views(r@), v@.subrange(start as int, i as int));
                assert(v@.subrange(i + 1, i + 1) =~= Seq::<char>::empty());
                assert(v@.subrange(0, i + 1) =~= v@.subrange(0, i as int).push('\0'));
            }
            r.push(piece);
            start = i + 1;
        } else {
            proof {
                lemma_join_nul_extend(views(r@), v@.subrange(start as int, i as int), v@[i as int]);
                assert(v@.subrange(start as int, i + 1) =~= v@.subrange(start as int, i as int).push(v@[i as int]));
                assert(v@.subrange(0, i + 1) =~= v@.subrange(0, i as int).push(v@[i as int]));
            }
        }
        i = i + 1;
    }
    let last = string_of(&v, start, i);
    proof {
        lemma_views_push(r@, last);
        assert(v@.subrange(0, i as int) == v@);
    }
    r.push(last);
    r
}

/// Joining two or more pieces puts a NUL after all but the last.
pub proof fn lemma_join_nul_len(p: Seq<Seq<char>>)
    requires
        p.len() >= 2,
    ensures
        join_nul(p).len() == join_nul(p.drop_last()).len() + 1 + p.last().len(),
        join_nul(p)[join_nul(p.drop_last()).len() as int] == '\0',
{
}

/// Two lists of NUL-free pieces, each holding at least one piece, that join to
/// the same text are the same list.
pub proof fn lemma_join_nul_injective(p: Seq<Seq<char>>, q: Seq<Seq<char>>)
    requires
        p.len() >= 1,
        q.len() >= 1,
        forall|i: int| 0 <= i < p.len() ==> has_no_nul(#[trigger] p[i]),
        forall|i: int| 0 <= i < q.len() ==> has_no_nul(#[trigger] q[i]),
        join_nul(p) == join_nul(q),
    ensures
        p == q,
    decreases p.len() + q.len(),
{
    let j = join_nul(p);
    if p.len() == 1 && q.len() == 1 {
        assert(p =~= q);
    } else if p.len() == 1 {
        lemma_join_nul_len(q);
        assert(has_no_nul(p[0]));
        assert(j[join_nul(q.drop_last()).len() as int] == '\0');
    } else if q.len() == 1 {
        lemma_join_nul_len(p);
        assert(has_no_nul(q[0]));
        assert(j[join_nul(p.drop_last()).len() as int] == '\0');
    } else {
        lemma_join_nul_len(p);
        lemma_join_nul_len(q);
        let a = join_nul(p.drop_last()).len() as int;
        let b = join_nul(q.drop_last()).len() as int;
        assert(has_no_nul(p.last()));
        assert(has_no_nul(q.last()));
        if a < b {
            assert(j[b] == '\0');
            assert(j[b] == p.last()[b - a - 1]);
        } else if b < a {
            assert(j[a] == '\0');
            assert(j[a] == q.last()[a - b - 1]);
        }
        assert(a == b);
        assert(p.last() =~= j.subrange(a + 1, j.len() as int));
        assert(q.last() =~= j.subrange(b + 1, j.len() as int));
        assert(join_nul(p.drop_last()) =~= j.subrange(0, a));
        assert(join_nul(q.drop_last()) =~= j.subrange(0, b));
        lemma_join_nul_injective(p.drop_last(), q.drop_last());
        assert(p =~= p.drop_last().push(p.last()));
        assert(q =~= q.drop_last().push(q.last()));
    }
}

/// Splitting a joined argument list gives the list back, when no argument
/// holds a NUL and the joined text is not empty.
pub proof fn lemma_split_join(args: Seq<Seq<char>>, pieces: Seq<Seq<char>>)
    requires
        forall|i: int| 0 <= i < args.len() ==> has_no_nul(#[trigger] args[i]),
        join_nul(args).len() > 0,
        join_nul(pieces) == join_nul(args),
        forall|i: int| 0 <= i < pieces.len() ==> has_no_nul(#[trigger] pieces[i]),
    ensures
        pieces == args,
{
    if pieces.len() == 0 {
        assert(join_nul(pieces).len() == 0);
    }
    if args.len() == 0 {
        assert(join_nul(args).len() == 0);
    }
    lemma_join_nul_injective(pieces, args);
}

/// The prefixes (up to and including the first '=') of the startup flags
/// whose values may change without a server restart.
pub open spec fn volatile_prefixes() -> Seq<Seq<char>> {
    seq![
        "--option_sources="@,
        "--max_idle_secs="@,
        "--connect_timeout_secs="@,
        "--client_debug="@,
        "--preemptible="@,
    ]
}

/// An argument is volatile when its part up to and including the first '='
/// is one of the volatile prefixes; one without '=' never is.
pub open spec fn is_volatile(arg: Seq<char>) -> bool {
    match first_index_of(arg, '=') {
        Some(k) => volatile_prefixes().contains(arg.subrange(0, k + 1)),
        None => false,
    }
}

/// Whether `arg` is a volatile startup flag.
pub fn is_volatile_arg(arg: &str) -> (r: bool)
    ensures
        r == is_volatile(arg@),
{
    let v = chars_of(arg);
    let eq = find_char(&v, '=');
    match eq {
        None => false,
        Some(k) => {
            assert(k < v.len());
            let p = string_of(&v, 0, k + 1);
            let ps = p.as_str();
            let ghost vp = volatile_prefixes();
            proof {
                assert(vp[0] == "--option_sources="@);
                assert(vp[1] == "--max_idle_secs="@);
                assert(vp[2] == "--connect_timeout_secs="@);
                assert(vp[3] == "--client_debug="@);
                assert(vp[4] == "--preemptible="@);
                assert(vp.len() == 5);
            }
            let r = str_eq(ps, "--option_sources=") || str_eq(ps, "--max_idle_secs=") || str_eq(
                ps,
                "--connect_timeout_secs=",
            ) || str_eq(ps, "--client_debug=")
                || str_eq(ps, "--preemptible=");
            proof {
                if !r {
                    assert forall|j: int| 0 <= j < vp.len() implies vp[j] != p@ by {
                        if j == 0 {
                        } else if j == 1 {
                        } else if j == 2 {
                        } else if j == 3 {
                        } else {
                        }
                    }
                }
            }
            r
        },
    }
}

/// The arguments that take part in the comparison: all but the volatile ones.
pub open spec fn kept(args: Seq<Seq<char>>) -> Seq<Seq<char>>
    decreases args.len(),
{
    if args.len() == 0 {
        Seq::empty()
    } else if is_volatile(args.last()) {
        kept(args.drop_last())
    } else {
        kept(args.drop_last()).push(args.last())
    }
}

/// A running server's argument vector differs from the requested one when
/// their non-volatile arguments differ as multisets (order does not count,
/// repetitions do).
pub open spec fn options_differ(running: Seq<Seq<char>>, requested: Seq<Seq<char>>) -> bool {
    kept(running).to_multiset() != kept(requested).to_multiset()
}

/// The non-volatile arguments of `args`, in order.
fn non_volatile(args: &Vec<String>) -> (r: Vec<String>)
    ensures
        views(r@) == kept(views(args@)),
{
    let mut r: Vec<String> = Vec::new();
    let mut i: usize = 0;
    while i < args.len()
        invariant
            i <= args@.len(),
            views(r@) == kept(views(args@.subrange(0, i as int))),
        decreases args@.len() - i,
    {
        let ghost prev = views(args@.subrange(0, i as int));
        let ghost next = views(args@.subrange(0, i + 1));
        assert(next =~= prev.push(args@[i as int]@));
        assert(next.drop_last() =~= prev);
        if !is_volatile_arg(args[i].as_str()) {
            let a = args[i].clone();
            proof { lemma_views_push(r@, a); }
            r.push(a);
        }
        i = i + 1;
    }
    assert(args@.subrange(0, i as int) == args@);
    r
}

/// Returns true when the server started with `running` must be restarted to
/// serve `requested`.
pub fn are_startup_options_different(running: &Vec<String>, requested: &Vec<String>) -> (r: bool)
    ensures
        r == options_differ(views(running@), views(requested@)),
{
    let mut rest = non_volatile(running);
    let wanted = non_volatile(requested);
    let ghost a = views(rest@);
    let ghost b = views(wanted@);
    let mut j: usize = 0;
    while j < wanted.len()
        invariant
            j <= wanted@.len(),
            b == views(wanted@),
            a == kept(views(running@)),
            b == kept(views(requested@)),
            views(rest@).to_multiset().add(b.subrange(0, j as int).to_multiset()) == a.to_multiset(),
        decreases wanted@.len() - j,
    {
        let mut k: usize = 0;
        let mut found = false;
        while !found && k < rest.len()
            invariant
                k <= rest@.len(),
                j < wanted@.len(),
                b == views(wanted@),
                found ==> k < rest@.len() && rest@[k as int]@ == b[j as int],
                forall|m: int| 0 <= m < k ==> rest@[m]@ != b[j as int],
            decreases rest@.len() - k + (if found { 0int } else { 1int }),
        {
            if str_eq(rest[k].as_str(), wanted[j].as_str()) {
                found = true;
            } else {
                k = k + 1;
            }
        }
        let ghost x = b[j as int];
        proof {
            assert(b.subrange(0, j + 1) =~= b.subrange(0, j as int).push(x));
        }
        if !found {
            proof {
                assert forall|m: int| 0 <= m < views(rest@).len() implies views(rest@)[m] != x by {
                    assert(views(rest@)[m] == rest@[m]@);
                }
                assert(!views(rest@).contains(x));
                assert(views(rest@).to_multiset().count(x) == 0);
                let pre = b.subrange(0, j as int).to_multiset();
                let all = b.to_multiset();
                lemma_prefix_count(b, j as int + 1, x);
                assert(b.subrange(0, j + 1).to_multiset().count(x) == pre.count(x) + 1);
                assert(a.to_multiset().count(x) == pre.count(x));
                assert(a.to_multiset() != all);
            }
            return true;
        }
        let ghost before = views(rest@);
        proof {
            assert(before[k as int] == x);
        }
        rest.remove(k);
        proof {
            assert(views(rest@) =~= before.remove(k as int));
            assert(before.remove(k as int).to_multiset() =~= before.to_multiset().remove(x));
            assert(before.to_multiset().count(x) > 0);
            assert(views(rest@).to_multiset().add(b.subrange(0, j + 1).to_multiset()) =~= a.to_multiset());
        }
        j = j + 1;
    }
    proof {
        assert(b.subrange(0, j as int) == b);
        if rest.len() > 0 {
            assert(views(rest@).len() > 0);
            assert(views(rest@).to_multiset().len() > 0);
            assert(a.to_multiset().len() == b.to_multiset().len() + views(rest@).to_multiset().len());
        } else {
            assert(views(rest@).to_multiset() =~= Multiset::empty());
            assert(a.to_multiset() =~= b.to_multiset());
        }
    }
    rest.len() > 0
}

/// Two argument vectors of one length that differ only where both hold a
/// volatile flag (whatever its value) are judged not different.
pub proof fn lemma_volatile_values_ignored(running: Seq<Seq<char>>, requested: Seq<Seq<char>>)
    requires
        running.len() == requested.len(),
        forall|i: int|
            0 <= i < running.len() ==> running[i] == requested[i] || (is_volatile(running[i])
                && is_volatile(requested[i])),
    ensures
        !options_differ(running, requested),
{
    lemma_kept_equal(running, requested);
}

proof fn lemma_kept_equal(running: Seq<Seq<char>>, requested: Seq<Seq<char>>)
    requires
        running.len() == requested.len(),
        forall|i: int|
            0 <= i < running.len() ==> running[i] == requested[i] || (is_volatile(running[i])
                && is_volatile(requested[i])),
    ensures
        kept(running) == kept(requested),
    decreases running.len(),
{
    if running.len() > 0 {
        let n = running.len() - 1;
        assert(running.last() == running[n]);
        assert(requested.last() == requested[n]);
        lemma_kept_equal(running.drop_last(), requested.drop_last());
    }
}

/// Adding a non-volatile flag to the requested arguments makes them differ.
pub proof fn lemma_added_flag_differs(running: Seq<Seq<char>>, flag: Seq<char>)
    requires
        !is_volatile(flag),
    ensures
        options_differ(running, running.push(flag)),
{
    broadcast use vstd::multiset::group_multiset_axioms;

    let added = running.push(flag);
    assert(added.drop_last() =~= running);
    assert(kept(added) == kept(running).push(flag));
    assert(kept(added).to_multiset().count(flag) == kept(running).to_multiset().count(flag) + 1);
}

/// Adding or dropping volatile flags, whatever their values, does not make
/// the arguments differ.
pub proof fn lemma_added_volatile_flag_ignored(running: Seq<Seq<char>>, flag: Seq<char>)
    requires
        is_volatile(flag),
    ensures
        !options_differ(running, running.push(flag)),
        !options_differ(running.push(flag), running),
{
    let added = running.push(flag);
    assert(added.drop_last() =~= running);
}

/// Replacing a non-volatile flag with a different non-volatile flag makes the
/// arguments differ.
pub proof fn lemma_changed_flag_differs(running: Seq<Seq<char>>, i: int, flag: Seq<char>)
    requires
        0 <= i < running.len(),
        !is_volatile(running[i]),
        !is_volatile(flag),
        flag != running[i],
    ensures
        options_differ(running, running.update(i, flag)),
{
    broadcast use vstd::multiset::group_multiset_axioms;

    lemma_kept_update(running, i, flag);
    let old_m = kept(running).to_multiset();
    let new_m = kept(running.update(i, flag)).to_multiset();
    assert(new_m.insert(running[i]).count(flag) == old_m.insert(flag).count(flag));
    assert(new_m.count(flag) == old_m.count(flag) + 1);
}

proof fn lemma_kept_update(s: Seq<Seq<char>>, i: int, y: Seq<char>)
    requires
        0 <= i < s.len(),
        !is_volatile(s[i]),
        !is_volatile(y),
    ensures
        kept(s.update(i, y)).to_multiset().insert(s[i]) == kept(s).to_multiset().insert(y),
    decreases s.len(),
{
    broadcast use vstd::multiset::group_multiset_axioms;

    let t = s.update(i, y);
    let n = s.len() - 1;
    if i == n {
        assert(t.drop_last() =~= s.drop_last());
        assert(t.last() == y);
        assert(s.last() == s[i]);
        let m = kept(s.drop_last()).to_multiset();
        assert(kept(t).to_multiset() =~= m.insert(y));
        assert(kept(s).to_multiset() =~= m.insert(s[i]));
        assert(m.insert(y).insert(s[i]) =~= m.insert(s[i]).insert(y));
    } else {
        assert(t.drop_last() =~= s.drop_last().update(i, y));
        assert(t.last() == s.last());
        assert(s.drop_last()[i] == s[i]);
        lemma_kept_update(s.drop_last(), i, y);
        let m = kept(s.drop_last()).to_multiset();
        if !is_volatile(s.last()) {
            assert(kept(t).to_multiset() =~= kept(t.drop_last()).to_multiset().insert(s.last()));
            assert(kept(s).to_multiset() =~= m.insert(s.last()));
            let mt = kept(t.drop_last()).to_multiset();
            assert(mt.insert(s[i]) =~= m.insert(y));
            assert forall|v: Seq<char>| #[trigger] mt.insert(s.last()).insert(s[i]).count(v)
                == m.insert(s.last()).insert(y).count(v) by {
                assert(mt.insert(s[i]).count(v) == m.insert(y).count(v));
            }
            assert(mt.insert(s.last()).insert(s[i]) =~= m.insert(s.last()).insert(y));
        }
    }
}

/// A prefix of a sequence holds an item no more often than the whole.
proof fn lemma_prefix_count(s: Seq<Seq<char>>, n: int, x: Seq<char>)
    requires
        0 <= n <= s.len(),
    ensures
        s.subrange(0, n).to_multiset().count(x) <= s.to_multiset().count(x),
    decreases s.len() - n,
{
    if n < s.len() {
        lemma_prefix_count(s, n + 1, x);
        assert(s.subrange(0, n + 1) =~= s.subrange(0, n).push(s[n]));
    } else {
        assert(s.subrange(0, n) == s);
    }
}

} // verus!
