//! Reading the command line.
//!
//! The first argument is the program's name. `--json` anywhere selects JSON
//! output and is otherwise left out of account. A mode flag anywhere selects
//! the mode; without one the arguments are those of a single bet.

use crate::text::same_text;
use vstd::prelude::*;

verus! {

/// How results are written.
#[derive(Clone, Copy, Debug, PartialEq, Eq, Structural)]
pub enum OutputFormat {
    /// For a reader at a terminal.
    Text,
    /// As one JSON object.
    Json,
}

impl OutputFormat {
    /// Whether results are written as JSON.
    pub fn is_json(self) -> (json: bool)
        ensures
            json == (self == OutputFormat::Json),
    {
        match self {
            OutputFormat::Json => true,
            OutputFormat::Text => false,
        }
    }
}

/// What the calculator can work out.
#[derive(Clone, Copy, Debug, PartialEq, Eq, Structural)]
pub enum Mode {
    /// One bet at decimal odds.
    Standard,
    /// One prediction-market contract (`-p`).
    Polymarket,
    /// One stock trade (`-s`).
    Stock,
    /// A two-way arbitrage (`-a`).
    Arbitrage,
    /// An arbitrage over several outcomes (`-A`).
    MultiArbitrage,
    /// The equilibria of a two-by-two game (`-n`).
    Nash,
    /// A portfolio of independent legs (`-k`).
    Portfolio,
    /// A portfolio over joint scenarios (`-K`).
    PortfolioCorrelated,
}

/// What a command line asks for.
#[derive(Clone, Copy, Debug, PartialEq, Eq, Structural)]
pub enum Command {
    /// The usage text.
    Usage,
    /// The program's version.
    Version,
    /// Nothing that can be done: JSON output was asked for without any
    /// argument, which would start a dialogue.
    JsonNeedsArguments,
    /// A calculation in the given mode.
    Run(Mode),
}

/// A command line, read.
pub struct Invocation {
    /// How results are to be written.
    pub output: OutputFormat,
    /// The arguments without `--json`, in their order.
    pub args: Vec<String>,
    /// What is asked for.
    pub command: Command,
}

/// The text of each argument.
pub open spec fn texts(args: Seq<String>) -> Seq<Seq<char>> {
    args.map_values(|arg: String| arg@)
}

/// Whether `flag` asks for the usage text.
pub open spec fn is_help(flag: Seq<char>) -> bool {
    flag == "-h"@ || flag == "-help"@ || flag == "--help"@
}

/// Whether `flag` asks for the version.
pub open spec fn is_version(flag: Seq<char>) -> bool {
    flag == "-v"@ || flag == "-version"@ || flag == "--version"@
}

/// The arguments other than `flag`, in their order.
pub open spec fn without(args: Seq<Seq<char>>, flag: Seq<char>) -> Seq<Seq<char>> {
    args.filter(|arg: Seq<char>| arg != flag)
}

/// The mode that the arguments select: that of the first flag, in the order
/// `-K`, `-k`, `-n`, `-A`, `-a`, `-s`, `-p`, that occurs among them.
pub open spec fn selected_mode(args: Seq<Seq<char>>) -> Mode {
    if args.contains("-K"@) {
        Mode::PortfolioCorrelated
    } else if args.contains("-k"@) {
        Mode::Portfolio
    } else if args.contains("-n"@) {
        Mode::Nash
    } else if args.contains("-A"@) {
        Mode::MultiArbitrage
    } else if args.contains("-a"@) {
        Mode::Arbitrage
    } else if args.contains("-s"@) {
        Mode::Stock
    } else if args.contains("-p"@) {
        Mode::Polymarket
    } else {
        Mode::Standard
    }
}

/// What the arguments `args`, already without `--json`, ask for; `json` tells
/// whether `--json` was among them.
pub open spec fn selected_command(args: Seq<Seq<char>>, json: bool) -> Command {
    if args.len() == 2 && is_help(args[1]) {
        Command::Usage
    } else if args.len() == 2 && is_version(args[1]) {
        Command::Version
    } else if args.len() == 1 && json {
        Command::JsonNeedsArguments
    } else {
        Command::Run(selected_mode(args))
    }
}

/// Whether some argument is a mode flag.
pub open spec fn names_mode(args: Seq<Seq<char>>) -> bool {
    ||| args.contains("-p"@)
    ||| args.contains("-s"@)
    ||| args.contains("-a"@)
    ||| args.contains("-A"@)
    ||| args.contains("-n"@)
    ||| args.contains("-k"@)
    ||| args.contains("-K"@)
}

/// Whether the arguments start a dialogue: the program's name alone, or with
/// one more argument where one of the two is a mode flag.
pub open spec fn starts_dialogue(args: Seq<Seq<char>>) -> bool {
    args.len() == 1 || (args.len() == 2 && names_mode(args))
}

proof fn lemma_without_push(args: Seq<Seq<char>>, arg: Seq<char>, flag: Seq<char>)
    ensures
        without(args.push(arg), flag) == if arg != flag {
            without(args, flag).push(arg)
        } else {
            without(args, flag)
        },
{
    reveal(Seq::filter);
    assert(args.push(arg).drop_last() =~= args);
}

proof fn lemma_contains_push(args: Seq<Seq<char>>, arg: Seq<char>, flag: Seq<char>)
    ensures
        args.push(arg).contains(flag) <==> args.contains(flag) || arg == flag,
{
    let longer = args.push(arg);
    if args.contains(flag) {
        let i = choose|i: int| 0 <= i < args.len() && args[i] == flag;
        assert(longer[i] == flag);
    }
    if arg == flag {
        assert(longer[args.len() as int] == flag);
    }
}

/// Whether `flag` asks for the usage text.
pub fn is_help_flag(flag: &str) -> (help: bool)
    ensures
        help == is_help(flag@),
{
    same_text(flag, "-h") || same_text(flag, "-help") || same_text(flag, "--help")
}

/// Whether `flag` asks for the version.
pub fn is_version_flag(flag: &str) -> (version: bool)
    ensures
        version == is_version(flag@),
{
    same_text(flag, "-v") || same_text(flag, "-version") || same_text(flag, "--version")
}

/// Whether some argument is `flag`.
pub fn has_flag(args: &[String], flag: &str) -> (found: bool)
    ensures
        found == texts(args@).contains(flag@),
{
    let mut i: usize = 0;
    while i < args.len()
        invariant
            i <= args.len(),
            !texts(args@).take(i as int).contains(flag@),
        decreases args.len() - i,
    {
        if same_text(args[i].as_str(), flag) {
            assert(texts(args@)[i as int] == flag@);
            return true;
        }
        proof {
            lemma_contains_push(texts(args@).take(i as int), texts(args@)[i as int], flag@);
            assert(texts(args@).take(i + 1) =~= texts(args@).take(i as int).push(
                texts(args@)[i as int],
            ));
        }
        i = i + 1;
    }
    assert(texts(args@).take(i as int) =~= texts(args@));
    false
}

/// The mode that the arguments select.
fn select_mode(args: &[String]) -> (mode: Mode)
    ensures
        mode == selected_mode(texts(args@)),
{
    if has_flag(args, "-K") {
        Mode::PortfolioCorrelated
    } else if has_flag(args, "-k") {
        Mode::Portfolio
    } else if has_flag(args, "-n") {
        Mode::Nash
    } else if has_flag(args, "-A") {
        Mode::MultiArbitrage
    } else if has_flag(args, "-a") {
        Mode::Arbitrage
    } else if has_flag(args, "-s") {
        Mode::Stock
    } else if has_flag(args, "-p") {
        Mode::Polymarket
    } else {
        Mode::Standard
    }
}

/// The arguments other than `flag`, in their order.
pub fn without_flag(args: &[String], flag: &str) -> (rest: Vec<String>)
    ensures
        texts(rest@) == without(texts(args@), flag@),
{
    let mut rest: Vec<String> = Vec::new();
    let mut i: usize = 0;
    assert(texts(rest@) =~= without(texts(args@).take(0), flag@)) by {
        reveal(Seq::filter);
    }
    while i < args.len()
        invariant
            i <= args.len(),
            texts(rest@) == without(texts(args@).take(i as int), flag@),
        decreases args.len() - i,
    {
        let ghost seen = texts(args@).take(i as int);
        let ghost arg = texts(args@)[i as int];
        proof {
            lemma_without_push(seen, arg, flag@);
            assert(texts(args@).take(i + 1) =~= seen.push(arg));
        }
        if !same_text(args[i].as_str(), flag) {
            let ghost kept = texts(rest@);
            rest.push(args[i].clone());
            assert(texts(rest@) =~= kept.push(arg));
        }
        i = i + 1;
    }
    assert(texts(args@).take(i as int) =~= texts(args@));
    rest
}

/// Reads a command line: how results are to be written, the arguments that
/// remain without `--json`, and what they ask for.
pub fn handle_args(args: Vec<String>) -> (invocation: Invocation)
    ensures
        (invocation.output == OutputFormat::Json) == texts(args@).contains("--json"@),
        texts(invocation.args@) == without(texts(args@), "--json"@),
        invocation.command == selected_command(
            without(texts(args@), "--json"@),
            texts(args@).contains("--json"@),
        ),
{
    let json = has_flag(args.as_slice(), "--json");
    let rest = without_flag(args.as_slice(), "--json");
    let output = if json {
        OutputFormat::Json
    } else {
        OutputFormat::Text
    };
    let command = if rest.len() == 2 && is_help_flag(rest[1].as_str()) {
        Command::Usage
    } else if rest.len() == 2 && is_version_flag(rest[1].as_str()) {
        Command::Version
    } else if rest.len() == 1 && json {
        Command::JsonNeedsArguments
    } else {
        Command::Run(select_mode(rest.as_slice()))
    };
    Invocation { output, args: rest, command }
}

/// Whether the arguments start a dialogue rather than a calculation: the
/// program's name alone, or with one more argument where one of the two is a
/// mode flag.
pub fn is_interactive_call(args: &[String]) -> (interactive: bool)
    ensures
        interactive == starts_dialogue(texts(args@)),
{
    if args.len() == 1 {
        return true;
    }
    args.len() == 2 && (has_flag(args, "-p") || has_flag(args, "-s") || has_flag(args, "-a")
        || has_flag(args, "-A") || has_flag(args, "-n") || has_flag(args, "-k") || has_flag(
        args,
        "-K",
    ))
}

} // verus!
