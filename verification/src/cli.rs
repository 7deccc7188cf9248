//! Command-line arguments: an optional subcommand, and everything else for
//! Neovim.

use vstd::prelude::*;
use vstd::string::*;

use crate::bridge::value::text_is;

verus! {

/// The subcommands.
#[derive(Debug, Clone, Copy, PartialEq, Eq, Structural)]
pub enum Command {
    /// Capture shell environment variables for GUI launches.
    Env,
}

/// The parsed command line.
#[derive(Debug)]
pub struct Cli {
    pub command: Option<Command>,
    /// Arguments passed directly to Neovim.
    pub nvim_args: Vec<String>,
}

/// The texts of a list of arguments.
pub open spec fn strs_view(args: Seq<&str>) -> Seq<Seq<char>> {
    args.map_values(|s: &str| s@)
}

/// The texts of a list of strings.
pub open spec fn strings_view(args: Seq<String>) -> Seq<Seq<char>> {
    args.map_values(|s: String| s@)
}

/// The text of an optional string.
pub open spec fn opt_view(s: Option<String>) -> Option<Seq<char>> {
    match s {
        Some(x) => Some(x@),
        None => None,
    }
}

/// What clap makes of the command line `args` (program name first): the
/// subcommand's name, if one was given, and the arguments for Neovim; `None`
/// where it refuses them or asks for help or the version.
pub uninterp spec fn cli_matches(args: Seq<Seq<char>>) -> Option<(Option<Seq<char>>, Seq<Seq<char>>)>;

/// Parses the command line with clap (`clap::Command::try_get_matches_from`
/// on the command `gui.nvim`, version 0.1.0, with the subcommand `env` and
/// the trailing arguments `nvim_args` that may start with a hyphen). The
/// contract claims only that the result is the one clap gives for these
/// arguments, named `cli_matches`.
#[verifier::external_body]
fn clap_matches(args: &[&str]) -> (r: Option<(Option<String>, Vec<String>)>)
    ensures
        match r {
            Some((sub, rest)) => cli_matches(strs_view(args@)) == Some((opt_view(sub), strings_view(rest@))),
            None => cli_matches(strs_view(args@)) is None,
        },
{
    let nvim_args = clap::Arg::new("nvim_args").num_args(1..).action(clap::ArgAction::Append)
        .trailing_var_arg(true).allow_hyphen_values(true);
    let cmd = clap::Command::new("gui.nvim").version("0.1.0").subcommand(clap::Command::new("env")).arg(nvim_args);
    let m = cmd.try_get_matches_from(args).ok()?;
    let rest: Vec<String> = m.get_many::<String>("nvim_args").unwrap_or_default().cloned().collect();
    Some((m.subcommand_name().map(String::from), rest))
}

/// The subcommand that a subcommand name selects.
pub open spec fn command_of(sub: Option<Seq<char>>) -> Option<Command> {
    if sub == Some("env"@) {
        Some(Command::Env)
    } else {
        None
    }
}

impl Cli {
    /// The command line that clap's result describes: the subcommand that
    /// `sub` names, and the arguments for Neovim as they are.
    pub fn from_matches(sub: Option<String>, rest: Vec<String>) -> (cli: Cli)
        ensures
            cli.command == command_of(opt_view(sub)),
            cli.nvim_args@ == rest@,
    {
        let command = match sub {
            Some(name) => if text_is(name.as_str(), "env") {
                Some(Command::Env)
            } else {
                None
            },
            None => None,
        };
        Cli { command, nvim_args: rest }
    }

    /// Builds the command line that clap's result describes.
    pub fn parse_from(args: &[&str]) -> (cli: Cli)
        requires
            cli_matches(strs_view(args@)) is Some,
        ensures
            match cli_matches(strs_view(args@)) {
                Some((sub, rest)) => cli.command == command_of(sub) && strings_view(cli.nvim_args@) == rest,
                None => false,
            },
    {
        match clap_matches(args) {
            Some((sub, rest)) => Cli::from_matches(sub, rest),
            None => Cli { command: None, nvim_args: Vec::new() },
        }
    }

    /// Parses the command line, or gives `None` where clap refuses it or
    /// asks for help or the version.
    pub fn try_parse_from(args: &[&str]) -> (r: Option<Cli>)
        ensures
            match r {
                Some(cli) => match cli_matches(strs_view(args@)) {
                    Some((sub, rest)) => cli.command == command_of(sub) && strings_view(cli.nvim_args@) == rest,
                    None => false,
                },
                None => cli_matches(strs_view(args@)) is None,
            },
    {
        match clap_matches(args) {
            Some(_) => Some(Cli::parse_from(args)),
            None => None,
        }
    }
}

} // verus!
