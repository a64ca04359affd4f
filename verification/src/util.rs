//! External commands as values: how one is written down, how its outcome is
//! judged, and the commands that install what is missing.

use vstd::prelude::*;
use vstd::string::*;

use crate::error::{Error, Result};
use crate::text::{decimal, join, join_with, pair, to_decimal, wrap};

verus! {

/// An external command: the program and its arguments.
#[derive(Debug, Clone)]
pub struct Command {
    /// The program to run.
    pub program: String,
    /// Its arguments, in order.
    pub args: Vec<String>,
}

/// A command as the contracts see it.
pub struct CommandView {
    /// The program to run.
    pub program: Seq<char>,
    /// Its arguments, in order.
    pub args: Seq<Seq<char>>,
}

/// The texts of the strings of `v`.
pub open spec fn strs(v: Seq<String>) -> Seq<Seq<char>> {
    v.map_values(|s: String| s@)
}

impl View for Command {
    type V = CommandView;

    open spec fn view(&self) -> CommandView {
        CommandView { program: self.program@, args: strs(self.args@) }
    }
}

/// The commands of `v` as the contracts see them.
pub open spec fn commands(v: Seq<Command>) -> Seq<CommandView> {
    v.map_values(|c: Command| c@)
}

/// The command `program` with the arguments `args`.
pub open spec fn cmd(program: Seq<char>, args: Seq<Seq<char>>) -> CommandView {
    CommandView { program, args }
}

/// The empty list of texts, to which `push` adds.
pub open spec fn args() -> Seq<Seq<char>> {
    Seq::empty()
}

/// The empty list of commands, to which `push` adds.
pub open spec fn sequence() -> Seq<CommandView> {
    Seq::empty()
}

/// Appends a copy of `s` to `v`.
pub fn push_arg(v: &mut Vec<String>, s: &str)
    ensures
        strs(final(v)@) == strs(old(v)@).push(s@),
        final(v).len() == old(v).len() + 1,
{
    v.push(String::from_str(s));
    assert(strs(v@) =~= strs(old(v)@).push(s@));
}

/// Appends copies of the strings of `more` to `v`.
pub fn extend_args(v: &mut Vec<String>, more: &Vec<String>)
    ensures
        strs(final(v)@) == strs(old(v)@) + strs(more@),
{
    let mut i: usize = 0;
    assert(strs(v@) =~= strs(old(v)@) + strs(more@).subrange(0, 0));
    while i < more.len()
        invariant
            i <= more.len(),
            strs(v@) == strs(old(v)@) + strs(more@).subrange(0, i as int),
        decreases more.len() - i,
    {
        push_arg(v, more[i].as_str());
        i += 1;
        assert(strs(v@) =~= strs(old(v)@) + strs(more@).subrange(0, i as int));
    }
    assert(strs(more@).subrange(0, i as int) == strs(more@));
}

/// An empty list of strings.
pub fn no_args() -> (v: Vec<String>)
    ensures
        strs(v@) == args(),
{
    let v: Vec<String> = Vec::new();
    assert(strs(v@) =~= args());
    v
}

/// The command `program` with the arguments `args`.
pub fn command(program: &str, args: Vec<String>) -> (c: Command)
    ensures
        c@ == cmd(program@, strs(args@)),
{
    Command { program: String::from_str(program), args }
}

/// Appends `c` to `v`.
pub fn push_command(v: &mut Vec<Command>, c: Command)
    ensures
        commands(final(v)@) == commands(old(v)@).push(c@),
        final(v).len() == old(v).len() + 1,
{
    v.push(c);
    assert(commands(v@) =~= commands(old(v)@).push(c@));
}

/// An empty list of commands.
pub fn no_commands() -> (v: Vec<Command>)
    ensures
        commands(v@) == sequence(),
{
    let v: Vec<Command> = Vec::new();
    assert(commands(v@) =~= sequence());
    v
}

/// A command as it is written on one line: the program, then the arguments
/// joined by spaces.
pub open spec fn command_line(c: CommandView) -> Seq<char> {
    c.program + " "@ + join_with(c.args, " "@)
}

/// How the run of a command ended.
#[derive(Debug, Clone)]
pub enum Outcome {
    /// The program could not be started; the reason.
    NotStarted(String),
    /// The program ran and reported success.
    Succeeded,
    /// The program ran and reported failure, with an exit code unless a
    /// signal ended it.
    Failed(Option<i32>),
}

/// `n` in base ten, with a minus sign where it is negative.
pub open spec fn signed_decimal(n: int) -> Seq<char> {
    if n < 0 {
        "-"@ + decimal((-n) as nat)
    } else {
        decimal(n as nat)
    }
}

/// An exit code as it is shown in a message.
pub open spec fn exit_code_text(code: Option<i32>) -> Seq<char> {
    match code {
        Some(n) => "Some("@ + signed_decimal(n as int) + ")"@,
        None => "None"@,
    }
}

/// What is said of a command that did not succeed.
pub open spec fn failure_text(c: CommandView, outcome: Outcome) -> Seq<char> {
    match outcome {
        Outcome::NotStarted(reason) => command_line(c) + ": "@ + reason@,
        Outcome::Failed(code) => command_line(c) + " failed with exit code: "@ + exit_code_text(
            code,
        ),
        Outcome::Succeeded => Seq::<char>::empty(),
    }
}

/// `n` in base ten, with a minus sign where it is negative.
pub fn to_signed_decimal(n: i32) -> (r: String)
    ensures
        r@ == signed_decimal(n as int),
{
    if n < 0 {
        let m: u64 = (-(n as i64)) as u64;
        pair("-", to_decimal(m).as_str())
    } else {
        to_decimal(n as u64)
    }
}

impl Command {
    /// The command as it is written on one line.
    pub fn line(&self) -> (r: String)
        ensures
            r@ == command_line(self@),
    {
        let joined = join(&self.args, " ");
        assert(self.args.deep_view() =~= strs(self.args@));
        wrap(self.program.as_str(), " ", joined.as_str())
    }
}

/// Judges the run of `c`: it is in order if the program ran and reported
/// success; otherwise the failure names the command line and what happened.
pub fn run_command(c: &Command, outcome: &Outcome) -> (r: Result<()>)
    ensures
        match r {
            Ok(_) => outcome is Succeeded,
            Err(e) => !(outcome is Succeeded) && (e matches Error::CommandFailed(m) && m@
                == failure_text(c@, *outcome)),
        },
{
    match outcome {
        Outcome::Succeeded => Ok(()),
        Outcome::NotStarted(reason) => {
            let m = wrap(c.line().as_str(), ": ", reason.as_str());
            Err(Error::CommandFailed(m))
        },
        Outcome::Failed(code) => {
            let text = match code {
                Some(n) => wrap("Some(", to_signed_decimal(*n).as_str(), ")"),
                None => String::from_str("None"),
            };
            let m = wrap(c.line().as_str(), " failed with exit code: ", text.as_str());
            Err(Error::CommandFailed(m))
        },
    }
}

/// The command that tells whether `program` can be found.
pub fn dependency_probe(program: &str) -> (c: Command)
    ensures
        c@ == cmd("which"@, args().push(program@)),
{
    let mut args = no_args();
    push_arg(&mut args, program);
    command("which", args)
}

/// Whether `program` is there: it is if the probe for it succeeded.
pub fn check_dependency(program: &str, found: bool) -> (r: Result<()>)
    ensures
        match r {
            Ok(_) => found,
            Err(e) => !found && (e matches Error::DependencyNotFound(p) && p@ == program@),
        },
{
    if found {
        Ok(())
    } else {
        Err(Error::DependencyNotFound(String::from_str(program)))
    }
}

/// The commands that install `package`: refresh the package list, then install.
pub open spec fn install_commands(package: Seq<char>) -> Seq<CommandView> {
    sequence().push(cmd("sudo"@, args().push("apt-get"@).push("-qq"@).push("update"@))).push(
        cmd("sudo"@, args().push("apt-get"@).push("-y"@).push("install"@).push(package)),
    )
}

/// The commands that install `package`, each of which must succeed.
pub fn install_dependency(package: &str) -> (r: Vec<Command>)
    ensures
        commands(r@) == install_commands(package@),
{
    let mut r = no_commands();
    let mut update = no_args();
    push_arg(&mut update, "apt-get");
    push_arg(&mut update, "-qq");
    push_arg(&mut update, "update");
    push_command(&mut r, command("sudo", update));
    let mut install = no_args();
    push_arg(&mut install, "apt-get");
    push_arg(&mut install, "-y");
    push_arg(&mut install, "install");
    push_arg(&mut install, package);
    push_command(&mut r, command("sudo", install));
    r
}

/// The commands that make sure of `program`: none if it was found, and
/// otherwise those that install `package`.
pub fn ensure_dependency(program: &str, package: &str, found: bool) -> (r: Vec<Command>)
    ensures
        commands(r@) == (if found {
            sequence()
        } else {
            install_commands(package@)
        }),
{
    match check_dependency(program, found) {
        Ok(_) => no_commands(),
        Err(_) => install_dependency(package),
    }
}

/// The command that tells whether the process `pid` is alive.
pub fn process_probe(pid: u32) -> (c: Command)
    ensures
        c@ == cmd("ps"@, args().push("-p"@).push(decimal(pid as nat))),
{
    let mut args = no_args();
    push_arg(&mut args, "-p");
    push_arg(&mut args, to_decimal(pid as u64).as_str());
    command("ps", args)
}

/// Whether the process runs: it does if the probe for it ran and succeeded.
pub fn check_process_running(outcome: &Outcome) -> (r: bool)
    ensures
        r == (outcome is Succeeded),
{
    match outcome {
        Outcome::Succeeded => true,
        _ => false,
    }
}

/// How the progress of a download is shown.
#[derive(Debug, Clone, Copy, PartialEq, Eq)]
pub enum Progress {
    /// Not at all.
    Silent,
    /// As a bar that fills up to this many bytes.
    Bar(u64),
    /// As a spinner, the size being unknown.
    Spinner,
}

/// How the progress of a download is shown: as a bar if the size is known
/// and above a million bytes, not at all if it is known and smaller, and as
/// a spinner if it is not known.
pub fn download_progress(content_length: Option<u64>) -> (r: Progress)
    ensures
        r == (match content_length {
            Some(n) => if n > 1000000 {
                Progress::Bar(n)
            } else {
                Progress::Silent
            },
            None => Progress::Spinner,
        }),
{
    match content_length {
        Some(n) => if n > 1000000 {
            Progress::Bar(n)
        } else {
            Progress::Silent
        },
        None => Progress::Spinner,
    }
}

/// Judges the answer to a download request: a status that is no success
/// fails the download, and the failure names the URL and the status.
pub fn download_status(url: &str, success: bool, status: &str) -> (r: Result<()>)
    ensures
        match r {
            Ok(_) => success,
            Err(e) => !success && (e matches Error::DownloadFailed(u, m) && u@ == url@ && m@
                == "HTTP status: "@ + status@),
        },
{
    if success {
        Ok(())
    } else {
        Err(Error::DownloadFailed(String::from_str(url), pair("HTTP status: ", status)))
    }
}

} // verus!
