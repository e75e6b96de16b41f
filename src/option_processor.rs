//! Splitting the client's command line into the binary, the startup flags,
//! the command, and the command's own arguments.

use vstd::prelude::*;
use crate::exit_code::{ExitCode, ExitError};
use crate::options::{is_arg, is_arg_spec};
use crate::startup_options::{
    StartupOptions, check_valid_nullary, check_valid_nullary_spec, is_unary, is_unary_spec,
};
use crate::text::{chars_of, find_char, first_index_of, push_char, push_str, views, lemma_views_push};

verus! {

/// A command line taken apart.
#[derive(Debug, PartialEq, Eq)]
pub struct CommandLine {
    pub path_to_binary: String,
    pub startup_args: Vec<String>,
    pub command: String,
    pub command_args: Vec<String>,
}

impl CommandLine {
    pub fn new(
        path_to_binary: String,
        startup_args: Vec<String>,
        command: String,
        command_args: Vec<String>,
    ) -> (r: CommandLine)
        ensures
            r.path_to_binary == path_to_binary,
            r.startup_args == startup_args,
            r.command == command,
            r.command_args == command_args,
    {
        CommandLine { path_to_binary, startup_args, command, command_args }
    }
}

/// The message for a flag that takes a value but is the last argument.
pub open spec fn expects_value_message(arg: Seq<char>) -> Seq<char> {
    "Startup option '"@ + arg + "' expects a value.\nUsage: '"@ + arg + "=somevalue' or '"@ + arg
        + " somevalue'.\n  For more info, run 'bazel help startup_options'."@
}

/// The message for an argument that looks like a flag but is none.
pub open spec fn unknown_option_message(arg: Seq<char>) -> Seq<char> {
    "Unknown startup option: '"@ + arg + "'.\n  For more info, run 'bazel help startup_options'."@
}

/// The startup flags from position `i` on, added to `acc`, and the position
/// where the command stands; or the message that rejects the line. A unary
/// flag given as `--name value` is stored as `--name=value`.
pub open spec fn split_startup(args: Seq<Seq<char>>, i: int, acc: Seq<Seq<char>>) -> Result<(Seq<Seq<char>>, int), Seq<char>>
    decreases args.len() - i,
{
    if i < 1 || i >= args.len() || !is_arg_spec(args[i]) {
        Ok((acc, i))
    } else {
        match check_valid_nullary_spec(args[i]) {
            Err(m) => Err(m),
            Ok(true) => split_startup(args, i + 1, acc.push(args[i])),
            Ok(false) => if is_unary_spec(args[i]) {
                if first_index_of(args[i], '=') is Some {
                    split_startup(args, i + 1, acc.push(args[i]))
                } else if i + 1 >= args.len() {
                    Err(expects_value_message(args[i]))
                } else {
                    split_startup(args, i + 2, acc.push(args[i] + seq!['='] + args[i + 1]))
                }
            } else {
                Err(unknown_option_message(args[i]))
            },
        }
    }
}

/// The parts of a command line: binary, startup flags, command, command
/// arguments.
pub open spec fn split_spec(args: Seq<Seq<char>>) -> Result<(Seq<char>, Seq<Seq<char>>, Seq<char>, Seq<Seq<char>>), Seq<char>> {
    if args.len() == 0 {
        Err("Unable to split command line, args is empty"@)
    } else {
        match split_startup(args, 1, Seq::empty()) {
            Err(m) => Err(m),
            Ok((startup, i)) => if i >= args.len() {
                Ok((args[0], startup, Seq::<char>::empty(), Seq::<Seq<char>>::empty()))
            } else {
                Ok((args[0], startup, args[i], args.subrange(i + 1, args.len() as int)))
            },
        }
    }
}

/// Owns the startup options and the command line of one invocation.
pub struct OptionProcessor {
    pub startup_options: StartupOptions,
    pub cmd_line: Option<CommandLine>,
    pub parse_options_called: bool,
}

fn unary_with_value(flag: &str, value: &str) -> (r: String)
    ensures
        r@ == flag@ + seq!['='] + value@,
{
    let mut s = String::from_str(flag);
    push_char(&mut s, '=');
    push_str(&mut s, value);
    s
}

fn message_expects_value(arg: &str) -> (r: String)
    ensures
        r@ == expects_value_message(arg@),
{
    let mut m = String::from_str("Startup option '");
    push_str(&mut m, arg);
    push_str(&mut m, "' expects a value.\nUsage: '");
    push_str(&mut m, arg);
    push_str(&mut m, "=somevalue' or '");
    push_str(&mut m, arg);
    push_str(&mut m, " somevalue'.\n  For more info, run 'bazel help startup_options'.");
    assert(m@ =~= expects_value_message(arg@));
    m
}

fn message_unknown_option(arg: &str) -> (r: String)
    ensures
        r@ == unknown_option_message(arg@),
{
    let mut m = String::from_str("Unknown startup option: '");
    push_str(&mut m, arg);
    push_str(&mut m, "'.\n  For more info, run 'bazel help startup_options'.");
    assert(m@ =~= unknown_option_message(arg@));
    m
}

impl OptionProcessor {
    pub fn new(default_startup_options: StartupOptions) -> (r: OptionProcessor)
        ensures
            r.startup_options == default_startup_options,
            r.cmd_line is None,
            !r.parse_options_called,
    {
        OptionProcessor {
            startup_options: default_startup_options,
            cmd_line: None,
            parse_options_called: false,
        }
    }

    /// Splits `args` into the binary, the startup flags (each checked against
    /// the flag table), the command and its arguments.
    pub fn split_command_line(&self, args: Vec<String>) -> (r: Result<CommandLine, String>)
        ensures
            match split_spec(views(args@)) {
                Ok((binary, startup, command, command_args)) => r matches Ok(c) && c.path_to_binary@
                    == binary && views(c.startup_args@) == startup && c.command@ == command && views(
                    c.command_args@,
                ) == command_args,
                Err(m) => r matches Err(e) && e@ == m,
            },
    {
        let ghost all = views(args@);
        if args.len() == 0 {
            return Err(String::from_str("Unable to split command line, args is empty"));
        }
        let path_to_binary = args[0].clone();
        let mut startup_args: Vec<String> = Vec::new();
        let mut i: usize = 1;
        assert(views(startup_args@) =~= Seq::<Seq<char>>::empty());
        while i < args.len() && is_arg(args[i].as_str())
            invariant
                all == views(args@),
                1 <= i <= args@.len(),
                split_startup(all, 1, Seq::empty()) == split_startup(all, i as int, views(startup_args@)),
            decreases args@.len() - i,
        {
            assert(all[i as int] == args@[i as int]@);
            let current = args[i].as_str();
            match check_valid_nullary(current) {
                Err(e) => {
                    return Err(e);
                },
                Ok(true) => {
                    let a = args[i].clone();
                    proof { lemma_views_push(startup_args@, a); }
                    startup_args.push(a);
                    i = i + 1;
                },
                Ok(false) => {
                    if is_unary(current) {
                        let v = chars_of(current);
                        let eq = find_char(&v, '=');
                        if eq.is_some() {
                            let a = args[i].clone();
                            proof { lemma_views_push(startup_args@, a); }
                            startup_args.push(a);
                            i = i + 1;
                        } else {
                            if i + 1 >= args.len() {
                                return Err(message_expects_value(current));
                            }
                            assert(all[i + 1] == args@[i + 1]@);
                            let a = unary_with_value(current, args[i + 1].as_str());
                            proof { lemma_views_push(startup_args@, a); }
                            startup_args.push(a);
                            i = i + 2;
                        }
                    } else {
                        return Err(message_unknown_option(current));
                    }
                },
            }
        }
        proof {
            if i < args@.len() {
                assert(all[i as int] == args@[i as int]@);
            }
        }
        if i == args.len() {
            return Ok(CommandLine::new(path_to_binary, startup_args, String::new(), Vec::new()));
        }
        let command = args[i].clone();
        let mut command_args: Vec<String> = Vec::new();
        let mut j: usize = i + 1;
        while j < args.len()
            invariant
                all == views(args@),
                i < j <= args@.len(),
                views(command_args@) == all.subrange(i + 1, j as int),
            decreases args@.len() - j,
        {
            let a = args[j].clone();
            proof {
                lemma_views_push(command_args@, a);
                assert(all.subrange(i + 1, j + 1) =~= all.subrange(i + 1, j as int).push(all[j as int]));
            }
            command_args.push(a);
            j = j + 1;
        }
        Ok(CommandLine::new(path_to_binary, startup_args, command, command_args))
    }

    /// Takes the command line apart and keeps it; a line that cannot be
    /// taken apart is a `BadArgv` error. Called once per invocation.
    pub fn parse_options(&mut self, args: Vec<String>) -> (r: Result<(), ExitError>)
        requires
            !old(self).parse_options_called,
        ensures
            final(self).parse_options_called,
            r is Ok <==> split_spec(views(args@)) is Ok,
            r matches Err(e) ==> e.code == ExitCode::BadArgv,
            r is Ok ==> (final(self).cmd_line matches Some(c) && match split_spec(views(args@)) {
                Ok((binary, startup, command, command_args)) => c.path_to_binary@ == binary && views(
                    c.startup_args@,
                ) == startup && c.command@ == command && views(c.command_args@) == command_args,
                Err(_) => false,
            }),
            r is Err ==> final(self).cmd_line == old(self).cmd_line,
            final(self).startup_options == old(self).startup_options,
    {
        self.parse_options_called = true;
        match self.split_command_line(args) {
            Ok(c) => {
                self.cmd_line = Some(c);
                Ok(())
            },
            Err(e) => Err(ExitError::new(ExitCode::BadArgv, e)),
        }
    }

    /// The command, once the command line was parsed.
    pub fn get_command(&self) -> (r: &str)
        requires
            self.cmd_line is Some,
        ensures
            r@ == self.cmd_line.unwrap().command@,
    {
        self.cmd_line.as_ref().unwrap().command.as_str()
    }

    /// The command's own arguments, once the command line was parsed.
    pub fn get_explicit_command_arguments(&self) -> (r: &Vec<String>)
        requires
            self.cmd_line is Some,
        ensures
            r == self.cmd_line.unwrap().command_args,
    {
        &self.cmd_line.as_ref().unwrap().command_args
    }

    /// The startup options, once the command line was parsed.
    pub fn get_parsed_startup_options(&self) -> (r: &StartupOptions)
        ensures
            r == self.startup_options,
    {
        &self.startup_options
    }
}

} // verus!
