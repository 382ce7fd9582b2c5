use vstd::prelude::*;

use colored::Colorize;

use crate::command::{
    name_of, parse_spec, parsed, path_exists, Command, CommandName, Kind,
};
use crate::config::Config;
use crate::text::{
    expand_tilde, join_words, joined_words, parse_status, replace_tilde, split_words, status_of,
    trim, trim_end, trim_start, trimmed, views, words,
};

verus! {

/// What the shell does in answer to one command: the process work that carries it out is
/// left to the caller.
pub enum Action {
    /// End the process with this status.
    Exit { status: i32 },
    /// Write the text to standard output.
    Print { text: String },
    /// Write the text to standard error.
    Report { text: String },
    /// Write the working directory, then a newline, to standard output.
    ShowDir,
    /// Make `target` the working directory; it was found to exist.
    ChangeDir { target: String },
    /// Run the program at `path` with these arguments and wait for it.
    Run { path: String, args: Vec<String> },
    /// Do nothing: the line was blank.
    Nothing,
}

/// An action, with its texts as character sequences.
pub enum Effect {
    Exit(i32),
    Print(Seq<char>),
    Report(Seq<char>),
    ShowDir,
    ChangeDir(Seq<char>),
    Run(Seq<char>, Seq<Seq<char>>),
    Nothing,
}

impl View for Action {
    type V = Effect;

    open spec fn view(&self) -> Effect {
        match self {
            Action::Exit { status } => Effect::Exit(*status),
            Action::Print { text } => Effect::Print(text@),
            Action::Report { text } => Effect::Report(text@),
            Action::ShowDir => Effect::ShowDir,
            Action::ChangeDir { target } => Effect::ChangeDir(target@),
            Action::Run { path, args } => Effect::Run(path@, views(args@)),
            Action::Nothing => Effect::Nothing,
        }
    }
}

/// Whether `s` holds no reset escape sequence.
pub open spec fn no_reset(s: Seq<char>) -> bool {
    forall|i: int| 0 <= i && i + 4 <= s.len() ==> #[trigger] s.subrange(i, i + 4) != "\u{1b}[0m"@
}

/// `p` shows `s` in red, or as it is: the terminal and the environment decide which.
pub open spec fn shown(s: Seq<char>, p: Seq<char>) -> bool {
    no_reset(s) ==> (p == s || p == "\u{1b}[31m"@ + s + "\u{1b}[0m"@)
}

/// Relies on colored's `Colorize::red` and the `Display` of `ColoredString`: where colouring is
/// off the text is written as it is; where it is on, a text that holds no reset sequence is
/// written between the escape that turns red on and the one that resets.
#[verifier::external_body]
fn red(s: &str) -> (r: String)
    ensures
        shown(s@, r@),
{
    s.red().to_string()
}

/// What `type` reports of the word `asked`, which resolved to `found`.
pub open spec fn type_effect(asked: Seq<char>, found: Option<Kind>, e: Effect) -> bool {
    match found {
        None => e == Effect::Print(asked + ": not found\n"@),
        Some(Kind::External { name, path }) => e == Effect::Print(
            name + " is "@ + path + "\n"@,
        ),
        Some(k) => exists|p: Seq<char>, q: Seq<char>|
            shown(name_of(k), p) && shown("builtin"@, q) && e == Effect::Print(
                p + " is a shell "@ + q + "\n"@,
            ),
    }
}

/// Where `cd` with these arguments goes: the home directory when there is no argument, else
/// the first argument, trimmed, with each `~` written as the home directory.
pub open spec fn cd_target(args: Seq<Seq<char>>, home: Seq<char>) -> Seq<char> {
    if args.len() > 0 {
        expand_tilde(trimmed(args[0]), home)
    } else {
        home
    }
}

/// What `cd` does with `target`, given whether it exists.
pub open spec fn cd_effect(target: Seq<char>, exists: bool, e: Effect) -> bool {
    if exists {
        e == Effect::ChangeDir(target)
    } else {
        exists|p: Seq<char>|
            shown("file"@, p) && e == Effect::Report(target + ": No such "@ + p + " or directory\n"@)
    }
}

/// The command word of a parse result.
pub open spec fn head_kind(r: Option<(Kind, Seq<Seq<char>>)>) -> Option<Kind> {
    match r {
        Some(x) => Some(x.0),
        None => None,
    }
}

/// What the command `k` with arguments `args` does, where `dirs` are the search directories
/// and `home` the home directory. Where the answer depends on the disk, it holds for some
/// outcome of the looks made.
pub open spec fn dispatch_spec(
    k: Kind,
    args: Seq<Seq<char>>,
    dirs: Seq<Seq<char>>,
    home: Seq<char>,
    e: Effect,
) -> bool {
    match k {
        Kind::Exit => if args.len() == 0 {
            e == Effect::Exit(0)
        } else {
            match status_of(args[0]) {
                Some(v) => e == Effect::Exit(v),
                None => exists|p: Seq<char>|
                    shown(args[0], p) && e == Effect::Report(p + ": invalid status code\n"@),
            }
        },
        Kind::Echo => e == Effect::Print(joined_words(args) + "\n"@),
        Kind::Type => if args.len() == 0 {
            exists|p: Seq<char>|
                shown("type"@, p) && e == Effect::Report(p + ": type requires a command\n"@)
        } else {
            exists|probes: Seq<bool>|
                probes.len() == dirs.len() && type_effect(
                    args[0],
                    head_kind(parse_spec(args[0], dirs, probes)),
                    e,
                )
        },
        Kind::Pwd => e == Effect::ShowDir,
        Kind::Cd => exists|b: bool| cd_effect(cd_target(args, home), b, e),
        Kind::External { name: _, path } => e == Effect::Run(path, args),
    }
}

/// The report of `type` on `asked`, given what it resolved to.
pub fn type_report(asked: &str, found: &Option<Command>) -> (r: Action)
    ensures
        type_effect(asked@, head_kind(parsed(*found)), r@),
{
    match found {
        None => {
            let mut text = String::from_str(asked);
            text.append(": not found\n");
            Action::Print { text }
        },
        Some(cmd) => match &cmd.command {
            CommandName::Other { name, path } => {
                let mut text = name.clone();
                text.append(" is ");
                text.append(path.as_str());
                text.append("\n");
                Action::Print { text }
            },
            _ => {
                let word = cmd.command.to_string();
                let mut text = red(word.as_str());
                text.append(" is a shell ");
                let tail = red("builtin");
                text.append(tail.as_str());
                text.append("\n");
                Action::Print { text }
            },
        },
    }
}

/// What `cd` does with `target`, given whether it exists: it changes there only if it does.
pub fn cd_outcome(target: String, exists: bool) -> (r: Action)
    ensures
        cd_effect(target@, exists, r@),
{
    if exists {
        Action::ChangeDir { target }
    } else {
        let mut text = target;
        text.append(": No such ");
        let file = red("file");
        text.append(file.as_str());
        text.append(" or directory\n");
        Action::Report { text }
    }
}

impl Command {
    /// What this command does under `config`.
    pub fn dispatch(&self, config: &Config) -> (r: Action)
        ensures
            dispatch_spec(self.command@, views(self.args@), config.dirs(), config.home@, r@),
    {
        match &self.command {
            CommandName::Exit => {
                if self.args.len() == 0 {
                    return Action::Exit { status: 0 };
                }
                match parse_status(self.args[0].as_str()) {
                    Some(status) => Action::Exit { status },
                    None => {
                        let mut text = red(self.args[0].as_str());
                        text.append(": invalid status code\n");
                        Action::Report { text }
                    },
                }
            },
            CommandName::Echo => {
                let mut text = join_words(&self.args);
                text.append("\n");
                Action::Print { text }
            },
            CommandName::Type => {
                if self.args.len() == 0 {
                    let mut text = red("type");
                    text.append(": type requires a command\n");
                    return Action::Report { text };
                }
                let asked = self.args[0].as_str();
                let found = Command::from_str(asked, config);
                let ghost probes = choose|p: Seq<bool>|
                    p.len() == config.path@.len() && parsed(found) == parse_spec(
                        asked@,
                        config.dirs(),
                        p,
                    );
                let r = type_report(asked, &found);
                assert(type_effect(asked@, head_kind(parse_spec(asked@, config.dirs(), probes)), r@));
                r
            },
            CommandName::Pwd => Action::ShowDir,
            CommandName::Cd => {
                let target = if self.args.len() > 0 {
                    let t = trim(self.args[0].as_str());
                    replace_tilde(t.as_str(), config.home.as_str())
                } else {
                    config.home.clone()
                };
                let there = path_exists(target.as_str());
                let r = cd_outcome(target, there);
                assert(cd_effect(cd_target(views(self.args@), config.home@), there, r@));
                r
            },
            CommandName::Other { name: _, path } => {
                let args = self.args.clone();
                assert(views(args@) =~= views(self.args@));
                Action::Run { path: path.clone(), args }
            },
        }
    }
}

/// What the shell does with the trimmed, non-blank line `t` under the given probe outcomes
/// for its first word.
pub open spec fn line_effect(
    t: Seq<char>,
    dirs: Seq<Seq<char>>,
    home: Seq<char>,
    probes: Seq<bool>,
    e: Effect,
) -> bool {
    match parse_spec(t, dirs, probes) {
        None => exists|p: Seq<char>|
            shown("command"@, p) && e == Effect::Report(
                words(t)[0] + ": "@ + p + " not found\n"@,
            ),
        Some(x) => dispatch_spec(x.0, x.1, dirs, home, e),
    }
}

/// What the shell does with one input line: nothing for a blank line, a report that names the
/// first word where it names no command, else what the command does. The line is trimmed
/// first.
pub fn respond(line: &str, config: &Config) -> (r: Action)
    ensures
        words(trimmed(line@)).len() == 0 ==> r@ == Effect::Nothing,
        words(trimmed(line@)).len() > 0 ==> exists|probes: Seq<bool>|
            probes.len() == config.path@.len() && #[trigger] line_effect(
                trimmed(line@),
                config.dirs(),
                config.home@,
                probes,
                r@,
            ),
{
    let t = trim(line);
    let ws = split_words(t.as_str());
    if ws.len() == 0 {
        return Action::Nothing;
    }
    let found = Command::from_str(t.as_str(), config);
    let ghost probes = choose|p: Seq<bool>|
        p.len() == config.path@.len() && parsed(found) == parse_spec(t@, config.dirs(), p);
    match found {
        Some(cmd) => {
            let r = cmd.dispatch(config);
            assert(line_effect(t@, config.dirs(), config.home@, probes, r@));
            r
        },
        None => {
            let mut text = ws[0].clone();
            text.append(": ");
            let word = red("command");
            text.append(word.as_str());
            text.append(" not found\n");
            let r = Action::Report { text };
            assert(line_effect(t@, config.dirs(), config.home@, probes, r@));
            r
        },
    }
}

/// `cd ~` goes to the home directory, and `cd` with no argument goes where `cd ~` goes. A
/// target that does not exist is reported and the working directory is left as it is; one
/// that exists becomes the working directory.
pub proof fn lemma_cd_home(home: Seq<char>, target: Seq<char>, e: Effect)
    ensures
        cd_target(seq!["~"@], home) == home,
        cd_target(seq![], home) == cd_target(seq!["~"@], home),
        cd_effect(target, false, e) ==> e is Report,
        cd_effect(target, true, e) ==> e == Effect::ChangeDir(target),
{
    reveal_strlit("~");
    let tilde = "~"@;
    assert(tilde =~= seq!['~']);
    assert(tilde.drop_first() =~= seq![]);
    assert(tilde.drop_last() =~= seq![]);
    assert(trim_start(tilde) == tilde);
    assert(trim_end(tilde) == tilde);
    assert(expand_tilde(tilde.drop_last(), home) == Seq::<char>::empty());
    assert(expand_tilde(tilde, home) =~= home);
}

} // verus!
