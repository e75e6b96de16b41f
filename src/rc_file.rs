//! The text of `.bazelrc` files: continuation lines, comments, `import` and
//! `try-import` lines, and option lines of the form `<command> <words...>`.

use vstd::prelude::*;
use crate::text::{
    chars_of, string_of, str_eq, push_char, push_str, trim, trim_bounds, replace_all, replace_str,
    views, lemma_views_push,
};
use crate::workspace_layout::workspace_relativize_rc_file_path;

verus! {

/// An option line's words after the command, and the index of the rc file
/// it came from.
#[derive(Debug, PartialEq, Eq)]
pub struct RcOption {
    pub option: String,
    pub source_index: usize,
}

impl RcOption {
    pub fn new(option: String, source_index: usize) -> (r: RcOption)
        ensures
            r.option@ == option@,
            r.source_index == source_index,
    {
        RcOption { option, source_index }
    }
}

/// Why an rc file could not be read.
#[derive(Debug, PartialEq, Eq)]
pub enum ParseError {
    UnreadableFile(String),
    InvalidFormat(String),
    ImportLoop(String),
}

/// The separators: a newline, or any white space.
pub open spec fn is_separator(c: char, newline_only: bool) -> bool {
    if newline_only {
        c == '\n'
    } else {
        crate::text::is_space(c)
    }
}

/// The pieces of `s[i..]` between separators, none empty, after the pieces
/// `acc` and the unfinished piece `cur`.
pub open spec fn pieces_from(s: Seq<char>, newline_only: bool, i: int, cur: Seq<char>, acc: Seq<Seq<char>>) -> Seq<Seq<char>>
    decreases s.len() - i,
{
    if i >= s.len() {
        if cur.len() > 0 {
            acc.push(cur)
        } else {
            acc
        }
    } else if is_separator(s[i], newline_only) {
        pieces_from(s, newline_only, i + 1, Seq::empty(), if cur.len() > 0 {
            acc.push(cur)
        } else {
            acc
        })
    } else {
        pieces_from(s, newline_only, i + 1, cur.push(s[i]), acc)
    }
}

/// The non-empty runs of `s` between separators, in order.
pub open spec fn pieces(s: Seq<char>, newline_only: bool) -> Seq<Seq<char>> {
    pieces_from(s, newline_only, 0, Seq::empty(), Seq::empty())
}

/// Cuts `s` into its non-empty runs between newlines (`newline_only`) or
/// between white space.
pub fn split_pieces(s: &str, newline_only: bool) -> (r: Vec<String>)
    ensures
        views(r@) == pieces(s@, newline_only),
{
    let v = chars_of(s);
    let mut acc: Vec<String> = Vec::new();
    let mut start: usize = 0;
    let mut i: usize = 0;
    assert(v@.subrange(0, 0) =~= Seq::<char>::empty());
    assert(views(acc@) =~= Seq::<Seq<char>>::empty());
    while i < v.len()
        invariant
            v@ == s@,
            start <= i <= v@.len(),
            pieces(s@, newline_only) == pieces_from(s@, newline_only, i as int, v@.subrange(start as int, i as int), views(acc@)),
        decreases v@.len() - i,
    {
        let c = v[i];
        let sep = if newline_only {
            c == '\n'
        } else {
            c == ' ' || c == '\t' || c == '\n' || c == '\r' || c == '\x0b' || c == '\x0c'
        };
        if sep {
            if start < i {
                let p = string_of(&v, start, i);
                proof { lemma_views_push(acc@, p); }
                acc.push(p);
            }
            assert(v@.subrange(i + 1, i + 1) =~= Seq::<char>::empty());
            start = i + 1;
        } else {
            assert(v@.subrange(start as int, i + 1) =~= v@.subrange(start as int, i as int).push(c));
        }
        i = i + 1;
    }
    if start < i {
        let p = string_of(&v, start, i);
        proof { lemma_views_push(acc@, p); }
        acc.push(p);
    }
    acc
}

/// Words joined with single spaces.
pub open spec fn join_words(words: Seq<Seq<char>>) -> Seq<char>
    decreases words.len(),
{
    if words.len() == 0 {
        Seq::empty()
    } else if words.len() == 1 {
        words[0]
    } else {
        join_words(words.drop_last()) + seq![' '] + words.last()
    }
}

/// Joins `words[from..]` with single spaces.
pub fn join_with_spaces(words: &Vec<String>, from: usize) -> (r: String)
    requires
        from <= words@.len(),
    ensures
        r@ == join_words(views(words@).subrange(from as int, words@.len() as int)),
{
    let mut r = String::new();
    let mut i: usize = from;
    while i < words.len()
        invariant
            from <= i <= words@.len(),
            r@ == join_words(views(words@).subrange(from as int, i as int)),
        decreases words@.len() - i,
    {
        let ghost prev = views(words@).subrange(from as int, i as int);
        let ghost next = views(words@).subrange(from as int, i + 1);
        if i > from {
            push_char(&mut r, ' ');
        }
        push_str(&mut r, words[i].as_str());
        proof {
            assert(next.drop_last() =~= prev);
            assert(next.last() == words@[i as int]@);
            assert(r@ =~= join_words(next));
        }
        i = i + 1;
    }
    r
}

/// The meaningful lines of an rc file's text: continuation lines joined
/// (a backslash before the line break), each line trimmed, empty lines and
/// comments dropped.
pub open spec fn rc_lines_spec(contents: Seq<char>) -> Seq<Seq<char>> {
    pieces(
        replace_all(replace_all(contents, "\\\r\n"@, Seq::empty()), "\\\n"@, Seq::empty()),
        true,
    ).map_values(|l: Seq<char>| trim(l)).filter(|l: Seq<char>| l.len() > 0 && l[0] != '#')
}

/// The meaningful lines of an rc file's text.
pub fn rc_lines(contents: &str) -> (r: Vec<String>)
    ensures
        views(r@) == rc_lines_spec(contents@),
{
    proof {
        reveal_strlit("\\\r\n");
        reveal_strlit("\\\n");
        reveal_strlit("");
    }
    let a = replace_str(contents, "\\\r\n", "");
    let b = replace_str(a.as_str(), "\\\n", "");
    assert(""@ =~= Seq::<char>::empty());
    let raw = split_pieces(b.as_str(), true);
    let ghost trimmed = views(raw@).map_values(|l: Seq<char>| trim(l));
    let mut r: Vec<String> = Vec::new();
    let mut i: usize = 0;
    while i < raw.len()
        invariant
            i <= raw@.len(),
            trimmed == views(raw@).map_values(|l: Seq<char>| trim(l)),
            views(r@) == trimmed.subrange(0, i as int).filter(|l: Seq<char>| l.len() > 0 && l[0] != '#'),
        decreases raw@.len() - i,
    {
        let v = chars_of(raw[i].as_str());
        let (lo, hi) = trim_bounds(&v);
        let ghost prev = trimmed.subrange(0, i as int);
        let ghost next = trimmed.subrange(0, i + 1);
        assert(next.drop_last() =~= prev);
        assert(next.last() == trim(raw@[i as int]@));
        reveal_with_fuel(Seq::filter, 1);
        if lo < hi && v[lo] != '#' {
            let l = string_of(&v, lo, hi);
            proof { lemma_views_push(r@, l); }
            r.push(l);
        }
        i = i + 1;
    }
    assert(trimmed.subrange(0, i as int) =~= trimmed);
    r
}

/// What one line of an rc file says.
pub enum RcLine {
    /// `import <path>` or `try-import <path>`; `path` with the workspace
    /// marker resolved, `raw` as written.
    Import { path: String, raw: String, optional: bool },
    /// `<command> <words...>`: the words after the command, joined by spaces.
    Option { command: String, option: String },
    /// An import line without exactly one path.
    InvalidImport,
    /// A line without words.
    Blank,
}

/// Reads one line of an rc file of the workspace `workspace`.
pub fn parse_line(line: &str, workspace: &str) -> (r: RcLine)
    ensures
        ({
            let words = pieces(line@, false);
            let is_import = words.len() > 0 && (words[0] == "import"@ || words[0] == "try-import"@);
            &&& (words.len() == 0 ==> r is Blank)
            &&& (is_import && words.len() != 2 ==> r is InvalidImport)
            &&& (is_import && words.len() == 2 ==> (r matches RcLine::Import { path, raw, optional }
                && raw@ == words[1] && optional == (words[0] == "try-import"@)
                && path@ == replace_all(words[1], "%workspace%/"@, workspace@ + "/"@)))
            &&& (words.len() > 0 && !is_import ==> (r matches RcLine::Option { command, option }
                && command@ == words[0] && option@ == join_words(words.subrange(1, words.len() as int))))
        }),
{
    let words = split_pieces(line, false);
    let ghost w = views(words@);
    if words.len() == 0 {
        return RcLine::Blank;
    }
    assert(w[0] == words@[0]@);
    let command = words[0].as_str();
    let try_import = str_eq(command, "try-import");
    if str_eq(command, "import") || try_import {
        if words.len() != 2 {
            return RcLine::InvalidImport;
        }
        assert(w[1] == words@[1]@);
        let raw = words[1].clone();
        let path = workspace_relativize_rc_file_path(workspace, raw.as_str());
        return RcLine::Import { path, raw, optional: try_import };
    }
    let option = join_with_spaces(&words, 1);
    RcLine::Option { command: words[0].clone(), option }
}

/// The error for an import that is already being read, or none.
pub fn check_import_loop(import_stack: &Vec<String>, import: &str, raw: &str) -> (r: Option<ParseError>)
    ensures
        r is Some <==> views(import_stack@).contains(import@),
        r matches Some(e) ==> (e matches ParseError::ImportLoop(m) && m@ == "Import loop detected:\n"@
            + join_words(views(import_stack@)) + " "@ + raw@),
{
    let mut found = false;
    let mut i: usize = 0;
    while i < import_stack.len()
        invariant
            i <= import_stack@.len(),
            found <==> exists|j: int| 0 <= j < i && import_stack@[j]@ == import@,
        decreases import_stack@.len() - i,
    {
        if str_eq(import_stack[i].as_str(), import) {
            found = true;
        }
        i = i + 1;
    }
    proof {
        if found {
            let j = choose|j: int| 0 <= j < i && import_stack@[j]@ == import@;
            assert(views(import_stack@)[j] == import@);
        } else {
            assert forall|j: int| 0 <= j < views(import_stack@).len() implies views(import_stack@)[j] != import@ by {
                assert(views(import_stack@)[j] == import_stack@[j]@);
            }
        }
    }
    if !found {
        return None;
    }
    let mut m = String::from_str("Import loop detected:\n");
    let joined = join_with_spaces(import_stack, 0);
    assert(views(import_stack@).subrange(0, import_stack@.len() as int) =~= views(import_stack@));
    push_str(&mut m, joined.as_str());
    push_str(&mut m, " ");
    push_str(&mut m, raw);
    Some(ParseError::ImportLoop(m))
}

} // verus!
