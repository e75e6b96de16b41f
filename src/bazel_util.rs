//! Helpers around the server process: the output base derived from the
//! workspace path, the environment the server is started with, and the
//! resolution of path-valued flags.

use vstd::prelude::*;
use crate::paths::{join_path, join_path_spec};
use crate::text::{chars_of, string_of, str_eq, push_char, views};

verus! {

/// Names the MD5 digest of a string's UTF-8 bytes.
pub uninterp spec fn md5_of(s: Seq<char>) -> Seq<u8>;

/// Relies on `md5::compute`: the 16-byte digest of the string's bytes.
#[verifier::external_body]
fn md5_digest(data: &str) -> (r: Vec<u8>)
    ensures
        r@ == md5_of(data@),
        r@.len() == 16,
{
    md5::compute(data.as_bytes()).0.to_vec()
}

/// The lower-case hexadecimal digit of `d < 16`.
pub open spec fn hex_digit(d: u8) -> char {
    if d < 10 {
        ((d + 48) as u32) as char
    } else {
        ((d + 87) as u32) as char
    }
}

/// Two lower-case hexadecimal digits per byte.
pub open spec fn hex_of(b: Seq<u8>) -> Seq<char>
    decreases b.len(),
{
    if b.len() == 0 {
        Seq::empty()
    } else {
        hex_of(b.drop_last()) + seq![hex_digit(b.last() / 16), hex_digit(b.last() % 16)]
    }
}

fn hex_digit_exec(d: u8) -> (c: char)
    requires
        d < 16,
    ensures
        c == hex_digit(d),
{
    match d {
        0 => '0',
        1 => '1',
        2 => '2',
        3 => '3',
        4 => '4',
        5 => '5',
        6 => '6',
        7 => '7',
        8 => '8',
        9 => '9',
        10 => 'a',
        11 => 'b',
        12 => 'c',
        13 => 'd',
        14 => 'e',
        _ => 'f',
    }
}

/// Writes bytes as lower-case hexadecimal.
pub fn to_hex(b: &Vec<u8>) -> (r: String)
    ensures
        r@ == hex_of(b@),
{
    let mut r = String::new();
    let mut i: usize = 0;
    while i < b.len()
        invariant
            i <= b@.len(),
            r@ == hex_of(b@.subrange(0, i as int)),
        decreases b@.len() - i,
    {
        let x = b[i];
        push_char(&mut r, hex_digit_exec(x / 16));
        push_char(&mut r, hex_digit_exec(x % 16));
        proof {
            let next = b@.subrange(0, i + 1);
            assert(next.drop_last() =~= b@.subrange(0, i as int));
            assert(next.last() == x);
            assert(r@ =~= hex_of(next));
        }
        i = i + 1;
    }
    assert(b@.subrange(0, i as int) == b@);
    r
}

/// The directory under `root` named by the MD5 digest of `hashable`, in
/// lower-case hexadecimal: the default output base of a workspace.
pub fn hashed_base_dir(root: &str, hashable: &str) -> (r: String)
    ensures
        r@ == join_path_spec(root@, hex_of(md5_of(hashable@))),
{
    let digest = md5_digest(hashable);
    let name = to_hex(&digest);
    join_path(root, name.as_str())
}

/// What to do with an environment variable.
#[derive(Clone, Copy, Debug, PartialEq, Eq, Structural)]
pub enum EnvVarAction {
    Unset,
    Assign,
}

/// An environment change: unset the variable, or set it to `value`.
pub struct EnvVarValue {
    pub action: EnvVarAction,
    /// Ignored when the action is `Unset`.
    pub value: String,
}

impl EnvVarValue {
    pub fn new(action: EnvVarAction, value: String) -> (r: EnvVarValue)
        ensures
            r.action == action,
            r.value@ == value@,
    {
        EnvVarValue { action, value }
    }
}

/// The variables that are never passed on to the server.
pub open spec fn denied_env_vars() -> Seq<Seq<char>> {
    seq!["LD_ASSUME_KERNEL"@, "LD_PRELOAD"@, "_JAVA_OPTIONS"@]
}

/// The variables that fix the server's locale.
pub open spec fn locale_env_vars() -> Seq<Seq<char>> {
    seq!["LANG"@, "LANGUAGE"@, "LC_ALL"@, "LC_CTYPE"@]
}

/// The denied variables present in the client's environment, in the fixed
/// order of the deny list.
pub open spec fn denied_present(present: Seq<Seq<char>>) -> Seq<Seq<char>> {
    denied_env_vars().filter(|n: Seq<char>| present.contains(n))
}

fn contains_name(names: &Vec<String>, name: &str) -> (r: bool)
    ensures
        r == views(names@).contains(name@),
{
    let mut i: usize = 0;
    while i < names.len()
        invariant
            i <= names@.len(),
            forall|j: int| 0 <= j < i ==> names@[j]@ != name@,
        decreases names@.len() - i,
    {
        if str_eq(names[i].as_str(), name) {
            assert(views(names@)[i as int] == name@);
            return true;
        }
        i = i + 1;
    }
    assert forall|j: int| 0 <= j < views(names@).len() implies views(names@)[j] != name@ by {
        assert(views(names@)[j] == names@[j]@);
    }
    false
}

/// A name and the change made to that variable.
pub struct EnvChange {
    pub name: String,
    pub change: EnvVarValue,
}

/// The changes that turn the client's environment into the server's: each
/// denied variable that is present is unset; when a locale is given, the
/// locale variables are set to it.
pub fn server_env_changes(present: &Vec<String>, locale: Option<&str>) -> (r: Vec<EnvChange>)
    ensures
        r@.len() == denied_present(views(present@)).len() + (if locale is Some {
            locale_env_vars().len()
        } else {
            0
        }),
        forall|i: int|
            0 <= i < denied_present(views(present@)).len() ==> (#[trigger] r@[i]).name@
                == denied_present(views(present@))[i] && r@[i].change.action == EnvVarAction::Unset,
        locale matches Some(l) ==> forall|i: int|
            0 <= i < locale_env_vars().len() ==> ({
                let c = #[trigger] r@[denied_present(views(present@)).len() + i];
                c.name@ == locale_env_vars()[i] && c.change.action == EnvVarAction::Assign
                    && c.change.value@ == l@
            }),
{
    let ghost p = views(present@);
    let ghost denied = denied_env_vars();
    let names: Vec<&str> = vec!["LD_ASSUME_KERNEL", "LD_PRELOAD", "_JAVA_OPTIONS"];
    assert(names@.map_values(|s: &str| s@) =~= denied);
    let mut r: Vec<EnvChange> = Vec::new();
    let mut i: usize = 0;
    while i < names.len()
        invariant
            i <= names@.len(),
            names@.len() == 3,
            names@.map_values(|s: &str| s@) == denied,
            denied == denied_env_vars(),
            p == views(present@),
            r@.len() == denied.subrange(0, i as int).filter(|n: Seq<char>| p.contains(n)).len(),
            forall|k: int|
                0 <= k < r@.len() ==> (#[trigger] r@[k]).name@ == denied.subrange(0, i as int).filter(
                    |n: Seq<char>| p.contains(n),
                )[k] && r@[k].change.action == EnvVarAction::Unset,
        decreases names@.len() - i,
    {
        let ghost before = denied.subrange(0, i as int);
        let ghost after = denied.subrange(0, i + 1);
        assert(after.drop_last() =~= before);
        assert(after.last() == names@[i as int]@);
        reveal_with_fuel(Seq::filter, 1);
        if contains_name(present, names[i]) {
            r.push(EnvChange {
                name: String::from_str(names[i]),
                change: EnvVarValue::new(EnvVarAction::Unset, String::new()),
            });
        }
        i = i + 1;
    }
    assert(denied.subrange(0, 3) =~= denied);
    let ghost base = r@.len();
    if let Some(l) = locale {
        let locales: Vec<&str> = vec!["LANG", "LANGUAGE", "LC_ALL", "LC_CTYPE"];
        assert(locales@.map_values(|s: &str| s@) =~= locale_env_vars());
        let mut j: usize = 0;
        while j < locales.len()
            invariant
                j <= locales@.len(),
                locales@.len() == 4,
                locales@.map_values(|s: &str| s@) == locale_env_vars(),
                r@.len() == base + j,
                base == denied_present(p).len(),
                forall|k: int|
                    0 <= k < base ==> (#[trigger] r@[k]).name@ == denied_present(p)[k] && r@[k].change.action
                        == EnvVarAction::Unset,
                forall|k: int|
                    0 <= k < j ==> ({
                        let c = #[trigger] r@[base + k];
                        c.name@ == locale_env_vars()[k] && c.change.action == EnvVarAction::Assign
                            && c.change.value@ == l@
                    }),
            decreases locales@.len() - j,
        {
            assert(locale_env_vars()[j as int] == locales@[j as int]@);
            r.push(EnvChange {
                name: String::from_str(locales[j]),
                change: EnvVarValue::new(EnvVarAction::Assign, String::from_str(l)),
            });
            j = j + 1;
        }
    }
    r
}

/// The absolute path a path-valued flag stands for: the working directory
/// for an empty value, the home directory for a leading '~', the value
/// itself when absolute, else the value under the working directory.
pub open spec fn absolute_path_spec(value: Seq<char>, cwd: Seq<char>, home: Seq<char>) -> Seq<char> {
    if value.len() == 0 {
        cwd
    } else if value[0] == '~' {
        join_path_spec(home, value.drop_first())
    } else if value[0] == '/' {
        value
    } else {
        join_path_spec(cwd, value)
    }
}

/// Resolves a path-valued flag against the working and home directories.
pub fn absolute_path_from_flag(value: &str, cwd: &str, home: &str) -> (r: String)
    ensures
        r@ == absolute_path_spec(value@, cwd@, home@),
{
    let n = value.unicode_len();
    if n == 0 {
        return String::from_str(cwd);
    }
    let first = value.get_char(0);
    if first == '~' {
        let v = chars_of(value);
        let rest = string_of(&v, 1, n);
        assert(rest@ =~= value@.drop_first());
        join_path(home, rest.as_str())
    } else if first == '/' {
        String::from_str(value)
    } else {
        join_path(cwd, value)
    }
}

} // verus!
