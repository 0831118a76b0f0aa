//! The command line: what a parsed command asks for, and the tail of the log
//! that `dsp log` shows.

use crate::text::{chars_of, first_occurrence, lemma_first_occurrence_from, occurs_at};
use std::path::PathBuf;
use vstd::prelude::*;
use vstd::string::StrSliceExecFns;

verus! {

broadcast use vstd::string::group_string_axioms;

#[verifier::external_type_specification]
#[verifier::external_body]
pub struct ExPathBuf(std::path::PathBuf);

/// A subcommand of `dsp`.
#[derive(Debug)]
pub enum Command {
    /// Start proxy server with config file
    Start {
        /// Path to config file
        config: PathBuf,
        /// Port to listen on
        port: Option<u16>,
    },
    /// Show help information
    Help,
    /// View proxy logs
    Log {
        /// Number of lines to show
        lines: usize,
    },
}

/// The parsed command line.
#[derive(Debug)]
pub struct Args {
    pub command: Option<Command>,
    pub config: Option<PathBuf>,
    pub port: Option<u16>,
    pub log_level: String,
}

/// What a command line asks `dsp` to do.
#[derive(Debug)]
pub enum Action {
    /// Load the configuration at `config`, override its port with `port` if
    /// given, and serve it.
    StartServer { config: PathBuf, port: Option<u16> },
    /// Print the help text.
    ShowHelp,
    /// Print the last `lines` lines of the log file.
    ShowLogs { lines: usize },
}

/// The action a command line asks for: the subcommand's, or, without one,
/// starting the server from the configuration file given (with the port
/// given), or else the help text.
pub open spec fn spec_action(args: Args) -> Action {
    match args.command {
        Some(Command::Start { config, port }) => Action::StartServer { config, port },
        Some(Command::Help) => Action::ShowHelp,
        Some(Command::Log { lines }) => Action::ShowLogs { lines },
        None => match args.config {
            Some(config) => Action::StartServer { config, port: args.port },
            None => Action::ShowHelp,
        },
    }
}

/// Decides what a command line asks `dsp` to do.
pub fn plan_action(args: Args) -> (action: Action)
    ensures
        action == spec_action(args),
{
    match args.command {
        Some(Command::Start { config, port }) => Action::StartServer { config, port },
        Some(Command::Help) => Action::ShowHelp,
        Some(Command::Log { lines }) => Action::ShowLogs { lines },
        None => match args.config {
            Some(config) => Action::StartServer { config, port: args.port },
            None => Action::ShowHelp,
        },
    }
}

/// `line` without one trailing carriage return.
pub open spec fn strip_cr(line: Seq<char>) -> Seq<char> {
    if line.len() > 0 && line.last() == '\r' {
        line.drop_last()
    } else {
        line
    }
}

/// The lines of `s` (what `str::lines` yields): `s` is split at each `\n`,
/// a line that ended in `\r\n` loses its `\r`, and the text after the last
/// `\n` is a line only if it is not empty.
pub open spec fn spec_lines(s: Seq<char>) -> Seq<Seq<char>>
    decreases s.len(),
{
    match first_occurrence(s, seq!['\n']) {
        Some(k) => if 0 <= k < s.len() {
            seq![strip_cr(s.take(k))] + spec_lines(s.skip(k + 1))
        } else {
            seq![]
        },
        None => if s.len() == 0 {
            seq![]
        } else {
            seq![s]
        },
    }
}

/// The views of a list of strings.
pub open spec fn views(v: Seq<String>) -> Seq<Seq<char>> {
    v.map_values(|s: String| s@)
}

/// The lines of `content`.
pub fn split_lines(content: &str) -> (lines: Vec<String>)
    ensures
        views(lines@) == spec_lines(content@),
{
    let cs = chars_of(content);
    let n = cs.len();
    let mut lines: Vec<String> = Vec::new();
    let mut start: usize = 0;
    let mut i: usize = 0;
    assert(content@.skip(0) =~= content@);
    assert(views(lines@) + spec_lines(content@) =~= spec_lines(content@));
    while i < n
        invariant
            n == cs@.len() == content@.len(),
            cs@ == content@,
            start <= i <= n,
            forall|j: int| start <= j < i ==> cs@[j] != '\n',
            spec_lines(content@) == views(lines@) + spec_lines(content@.skip(start as int)),
        decreases n - i,
    {
        if cs[i] == '\n' {
            let ghost rest = content@.skip(start as int);
            let ghost k = i - start;
            proof {
                lemma_first_newline(rest, k);
            }
            let end = if i > start && cs[i - 1] == '\r' {
                i - 1
            } else {
                i
            };
            let line = content.substring_char(start, end).to_owned();
            proof {
                assert(line@ == strip_cr(rest.take(k))) by {
                    assert(rest.take(k) =~= content@.subrange(start as int, i as int));
                    if i > start && cs@[i - 1] == '\r' {
                        assert(content@.subrange(start as int, i as int).drop_last()
                            =~= content@.subrange(start as int, end as int));
                    }
                }
                assert(rest.skip(k + 1) =~= content@.skip(i + 1));
                assert(views(lines@.push(line)) =~= views(lines@) + seq![line@]);
            }
            lines.push(line);
            start = i + 1;
        }
        i = i + 1;
    }
    let ghost rest = content@.skip(start as int);
    proof {
        lemma_no_newline(rest);
    }
    if start < n {
        let line = content.substring_char(start, n).to_owned();
        proof {
            assert(line@ =~= rest);
            assert(views(lines@.push(line)) =~= views(lines@) + seq![line@]);
        }
        lines.push(line);
    } else {
        assert(views(lines@) + spec_lines(rest) =~= views(lines@));
    }
    lines
}

/// Where `s` has its first `\n` at `k`, its lines are the one before it and
/// the lines after it.
proof fn lemma_first_newline(s: Seq<char>, k: int)
    requires
        0 <= k < s.len(),
        s[k] == '\n',
        forall|j: int| 0 <= j < k ==> s[j] != '\n',
    ensures
        spec_lines(s) == seq![strip_cr(s.take(k))] + spec_lines(s.skip(k + 1)),
{
    lemma_first_occurrence_from(s, seq!['\n'], 0);
    assert(occurs_at(s, seq!['\n'], k)) by {
        assert(s.subrange(k, k + 1) =~= seq!['\n']);
    }
    match first_occurrence(s, seq!['\n']) {
        Some(i) => {
            if i < k {
                assert(s.subrange(i, i + 1)[0] == s[i]);
            }
        },
        None => {},
    }
}

/// The lines of a text without `\n`: itself, unless it is empty.
proof fn lemma_no_newline(s: Seq<char>)
    requires
        forall|j: int| 0 <= j < s.len() ==> s[j] != '\n',
    ensures
        spec_lines(s) == (if s.len() == 0 {
            Seq::<Seq<char>>::empty()
        } else {
            seq![s]
        }),
{
    lemma_first_occurrence_from(s, seq!['\n'], 0);
    match first_occurrence(s, seq!['\n']) {
        Some(i) => {
            assert(s.subrange(i, i + 1)[0] == s[i]);
        },
        None => {},
    }
}

/// The index of the first of the last `n` of `total` lines.
pub open spec fn spec_tail_start(total: nat, n: nat) -> nat {
    if total > n {
        (total - n) as nat
    } else {
        0
    }
}

/// The last `n` lines of `content` (all of them if it has fewer).
pub fn log_tail(content: &str, n: usize) -> (tail: Vec<String>)
    ensures
        views(tail@) == spec_lines(content@).skip(
            spec_tail_start(spec_lines(content@).len(), n as nat) as int,
        ),
{
    let lines = split_lines(content);
    let start = if lines.len() > n {
        lines.len() - n
    } else {
        0
    };
    let mut tail: Vec<String> = Vec::new();
    for i in start..lines.len()
        invariant
            start <= lines@.len(),
            views(tail@) == views(lines@).subrange(start as int, i as int),
    {
        let line = lines[i].clone();
        proof {
            assert(views(tail@.push(line)) =~= views(tail@).push(line@));
            assert(views(lines@).subrange(start as int, i + 1) =~= views(lines@).subrange(
                start as int,
                i as int,
            ).push(views(lines@)[i as int]));
        }
        tail.push(line);
    }
    assert(views(lines@).subrange(start as int, lines@.len() as int) =~= views(lines@).skip(
        start as int,
    ));
    tail
}

/// The tail holds as many lines as asked for, or all lines where there are fewer.
pub proof fn law_tail_length(content: Seq<char>, n: nat)
    ensures
        spec_lines(content).skip(spec_tail_start(spec_lines(content).len(), n) as int).len() == (
        if spec_lines(content).len() > n {
            n
        } else {
            spec_lines(content).len()
        }),
{
}

} // verus!

verus! {

/// A started server's port is overridden only by a port given on the command
/// line: the `start` subcommand's own `--port`, or, without a subcommand, the
/// top-level `--port`; with none given there is no override, and the
/// configuration's port stands. The configuration file is the one named.
pub proof fn law_port_override_only_from_command_line(args: Args)
    ensures
        spec_action(args) matches Action::StartServer { config, port } ==> match args.command {
            Some(Command::Start { config: c, port: p }) => config == c && port == p,
            Some(_) => false,
            None => args.config == Some(config) && port == args.port,
        },
        args.command is None && args.config is None ==> spec_action(args) is ShowHelp,
{
}

} // verus!
