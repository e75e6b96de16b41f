//! Reading startup flags out of an argument list: `--name`, `--noname`,
//! `--name=value` and `--name value`. Arguments after `--` are never flags.

use vstd::prelude::*;
use crate::exit_code::{ExitCode, ExitError};
use crate::text::{chars_of, string_of, str_eq, starts_with, has_prefix, push_str, views};

verus! {

/// An argument that the command-line splitter treats as a flag.
pub open spec fn is_arg_spec(arg: Seq<char>) -> bool {
    arg.len() > 0 && arg[0] == '-' && arg != "--help"@ && arg != "-help"@ && arg != "-h"@
}

/// Whether `arg` is a flag: it starts with '-' and is not a request for help.
pub fn is_arg(arg: &str) -> (r: bool)
    ensures
        r == is_arg_spec(arg@),
{
    let n = arg.unicode_len();
    n > 0 && arg.get_char(0) == '-' && !str_eq(arg, "--help") && !str_eq(arg, "-help") && !str_eq(
        arg,
        "-h",
    )
}

/// How an argument relates to a nullary flag.
#[derive(Clone, Copy, Debug, PartialEq, Eq, Structural)]
pub enum NullaryMatch {
    /// The argument is the flag.
    Yes,
    /// The argument is something else.
    No,
    /// The argument gives the flag a value, which it does not take.
    Error,
}

pub open spec fn nullary_match(arg: Seq<char>, key: Seq<char>) -> NullaryMatch {
    if !has_prefix(arg, key) {
        NullaryMatch::No
    } else if arg.len() == key.len() {
        NullaryMatch::Yes
    } else if arg[key.len() as int] == '=' {
        NullaryMatch::Error
    } else {
        NullaryMatch::No
    }
}

/// The message for a nullary flag that was given a value.
pub open spec fn nullary_error_message(arg: Seq<char>, key: Seq<char>) -> Seq<char> {
    "In argument '"@ + arg + "': option '"@ + key + "' does not take a value."@
}

fn nullary_error(arg: &str, key: &str) -> (r: ExitError)
    ensures
        r.code == ExitCode::BadArgv,
        r.reason@ == nullary_error_message(arg@, key@),
{
    let mut m = String::from_str("In argument '");
    push_str(&mut m, arg);
    push_str(&mut m, "': option '");
    push_str(&mut m, key);
    push_str(&mut m, "' does not take a value.");
    assert(m@ =~= nullary_error_message(arg@, key@));
    ExitError::new(ExitCode::BadArgv, m)
}

/// Whether `arg` is exactly the flag `key`. An argument `key=...` is an error
/// (`BadArgv`): the flag takes no value.
pub fn get_nullary_option(arg: &str, key: &str) -> (r: Result<bool, ExitError>)
    ensures
        match nullary_match(arg@, key@) {
            NullaryMatch::Yes => r == Ok::<bool, ExitError>(true),
            NullaryMatch::No => r == Ok::<bool, ExitError>(false),
            NullaryMatch::Error => r matches Err(e) && e.code == ExitCode::BadArgv && e.reason@
                == nullary_error_message(arg@, key@),
        },
{
    if !starts_with(arg, key) {
        return Ok(false);
    }
    let n = arg.unicode_len();
    let k = key.unicode_len();
    if n == k {
        return Ok(true);
    }
    if arg.get_char(k) == '=' {
        return Err(nullary_error(arg, key));
    }
    Ok(false)
}

/// The value of a nullary flag after the arguments from the front, starting
/// from `current`: `--name` sets it, `--noname` clears it, the last one wins;
/// the search stops at `--`. `None` when an argument gives either form a
/// value.
pub open spec fn search_nullary_from(
    args: Seq<Seq<char>>,
    positive: Seq<char>,
    negative: Seq<char>,
    current: bool,
) -> Option<bool>
    decreases args.len(),
{
    if args.len() == 0 || args[0] == "--"@ {
        Some(current)
    } else {
        match nullary_match(args[0], positive) {
            NullaryMatch::Error => None,
            NullaryMatch::Yes => search_nullary_from(args.drop_first(), positive, negative, true),
            NullaryMatch::No => match nullary_match(args[0], negative) {
                NullaryMatch::Error => None,
                NullaryMatch::Yes => search_nullary_from(args.drop_first(), positive, negative, false),
                NullaryMatch::No => search_nullary_from(args.drop_first(), positive, negative, current),
            },
        }
    }
}

/// Searches `args` for `--flag_name` and `--noflag_name`: the last of them
/// before `--` decides; `default_value` when neither appears. Giving either a
/// value is a `BadArgv` error.
pub fn search_nullary_option(args: &Vec<String>, flag_name: &str, default_value: bool) -> (r: Result<bool, ExitError>)
    ensures
        match search_nullary_from(views(args@), "--"@ + flag_name@, "--no"@ + flag_name@, default_value) {
            Some(v) => r == Ok::<bool, ExitError>(v),
            None => r matches Err(e) && e.code == ExitCode::BadArgv,
        },
{
    let mut positive = String::from_str("--");
    push_str(&mut positive, flag_name);
    let mut negative = String::from_str("--no");
    push_str(&mut negative, flag_name);
    let ghost pos = positive@;
    let ghost neg = negative@;
    let ghost all = views(args@);
    let mut current = default_value;
    let mut i: usize = 0;
    assert(all.subrange(0, all.len() as int) == all);
    assert(pos == "--"@ + flag_name@);
    assert(neg == "--no"@ + flag_name@);
    while i < args.len()
        invariant
            i <= args@.len(),
            pos == "--"@ + flag_name@,
            neg == "--no"@ + flag_name@,
            pos == positive@,
            neg == negative@,
            all == views(args@),
            search_nullary_from(all, pos, neg, default_value) == search_nullary_from(
                all.subrange(i as int, all.len() as int),
                pos,
                neg,
                current,
            ),
        decreases args@.len() - i,
    {
        let ghost rest = all.subrange(i as int, all.len() as int);
        assert(rest[0] == args@[i as int]@);
        assert(rest.drop_first() =~= all.subrange(i + 1, all.len() as int));
        let arg = args[i].as_str();
        if str_eq(arg, "--") {
            return Ok(current);
        }
        match get_nullary_option(arg, positive.as_str()) {
            Err(e) => {
                return Err(e);
            },
            Ok(true) => {
                current = true;
            },
            Ok(false) => {
                match get_nullary_option(arg, negative.as_str()) {
                    Err(e) => {
                        return Err(e);
                    },
                    Ok(true) => {
                        current = false;
                    },
                    Ok(false) => {},
                }
            },
        }
        i = i + 1;
    }
    assert(all.subrange(i as int, all.len() as int).len() == 0);
    Ok(current)
}

/// The value an argument gives the unary flag `key`: `key=value` gives
/// `value`; `key` alone gives the next argument (if any); anything else
/// gives nothing.
pub open spec fn unary_value(arg: Seq<char>, next: Option<Seq<char>>, key: Seq<char>) -> Option<Seq<char>> {
    if !has_prefix(arg, key) {
        None
    } else if arg.len() == key.len() {
        next
    } else if arg[key.len() as int] == '=' {
        Some(arg.subrange(key.len() as int + 1, arg.len() as int))
    } else {
        None
    }
}

/// If `arg` is `key=value`, returns `value`; if it is `key` alone, returns
/// `next_arg`; otherwise nothing.
pub fn get_unary_option(arg: &str, next_arg: Option<&str>, key: &str) -> (r: Option<String>)
    ensures
        match r {
            Some(v) => unary_value(arg@, match next_arg {
                Some(n) => Some(n@),
                None => None,
            }, key@) == Some(v@),
            None => unary_value(arg@, match next_arg {
                Some(n) => Some(n@),
                None => None,
            }, key@) is None,
        },
{
    if !starts_with(arg, key) {
        return None;
    }
    let n = arg.unicode_len();
    let k = key.unicode_len();
    if n == k {
        return match next_arg {
            Some(a) => Some(String::from_str(a)),
            None => None,
        };
    }
    if arg.get_char(k) == '=' {
        let v = chars_of(arg);
        return Some(string_of(&v, k + 1, n));
    }
    None
}

/// The value of unary flag `key` at position `i` of `args`, the next
/// argument standing by for the `key value` form.
pub open spec fn unary_at(args: Seq<Seq<char>>, i: int, key: Seq<char>) -> Option<Seq<char>> {
    unary_value(args[i], if i + 1 < args.len() {
        Some(args[i + 1])
    } else {
        None
    }, key)
}

/// The first value given to `key` from position `i` on. A `--` before the
/// last argument ends the search.
pub open spec fn search_unary_from(args: Seq<Seq<char>>, i: int, key: Seq<char>) -> Option<Seq<char>>
    decreases args.len() - i,
{
    if i < 0 || i >= args.len() {
        None
    } else if i < args.len() - 1 && args[i] == "--"@ {
        None
    } else {
        match unary_at(args, i, key) {
            Some(v) => Some(v),
            None => search_unary_from(args, i + 1, key),
        }
    }
}

/// The value of the first occurrence of the unary flag `key` in `args`.
pub fn search_unary_option(args: &Vec<String>, key: &str) -> (r: Option<String>)
    ensures
        match r {
            Some(v) => search_unary_from(views(args@), 0, key@) == Some(v@),
            None => search_unary_from(views(args@), 0, key@) is None,
        },
{
    let ghost all = views(args@);
    let n = args.len();
    let mut i: usize = 0;
    while i < n
        invariant
            n == args@.len(),
            all == views(args@),
            i <= n,
            search_unary_from(all, 0, key@) == search_unary_from(all, i as int, key@),
        decreases n - i,
    {
        assert(all[i as int] == args@[i as int]@);
        if i + 1 < n {
            assert(all[i + 1] == args@[i + 1]@);
            if str_eq(args[i].as_str(), "--") {
                return None;
            }
        }
        let next = if i + 1 < n {
            Some(args[i + 1].as_str())
        } else {
            None
        };
        let found = get_unary_option(args[i].as_str(), next, key);
        if found.is_some() {
            return found;
        }
        i = i + 1;
    }
    None
}

} // verus!
