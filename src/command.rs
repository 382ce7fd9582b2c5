use vstd::prelude::*;

use crate::config::{join_path, joined, Config};
use crate::text::{same_text, split_words, views, words};

verus! {

/// What a command word resolves to, with its texts as character sequences.
pub enum Kind {
    Exit,
    Echo,
    Type,
    Pwd,
    Cd,
    External { name: Seq<char>, path: Seq<char> },
}

/// A resolved command word: one of the built-ins, or a program found on the search path.
pub enum CommandName {
    Exit,
    Echo,
    Type,
    Pwd,
    Cd,
    Other { name: String, path: String },
}

impl View for CommandName {
    type V = Kind;

    open spec fn view(&self) -> Kind {
        match self {
            CommandName::Exit => Kind::Exit,
            CommandName::Echo => Kind::Echo,
            CommandName::Type => Kind::Type,
            CommandName::Pwd => Kind::Pwd,
            CommandName::Cd => Kind::Cd,
            CommandName::Other { name, path } => Kind::External { name: name@, path: path@ },
        }
    }
}

/// What a resolution result stands for.
pub open spec fn kind_of(r: Option<CommandName>) -> Option<Kind> {
    match r {
        Some(c) => Some(c@),
        None => None,
    }
}

/// The built-in that a reserved word names; `None` for every other word.
pub open spec fn builtin_kind(t: Seq<char>) -> Option<Kind> {
    if t == "exit"@ {
        Some(Kind::Exit)
    } else if t == "echo"@ {
        Some(Kind::Echo)
    } else if t == "type"@ {
        Some(Kind::Type)
    } else if t == "pwd"@ {
        Some(Kind::Pwd)
    } else if t == "cd"@ {
        Some(Kind::Cd)
    } else {
        None
    }
}

/// The first index at or after `i` whose probe found the file.
pub open spec fn hit_from(probes: Seq<bool>, i: int) -> Option<int>
    decreases probes.len() - i,
{
    if i < 0 || i >= probes.len() {
        None
    } else if probes[i] {
        Some(i)
    } else {
        hit_from(probes, i + 1)
    }
}

/// Whether `t` can name a file directly inside a directory: it is not empty and holds no `/`.
pub open spec fn plain_name(t: Seq<char>) -> bool {
    t.len() > 0 && forall|i: int| 0 <= i < t.len() ==> t[i] != '/'
}

/// What the word `t` resolves to when `probes[i]` tells whether directory `dirs[i]` holds a
/// file named `t`: a built-in first, else the first directory that holds it, else nothing.
/// A word that is empty or holds `/` names no file directly inside a directory.
pub open spec fn resolve_spec(t: Seq<char>, dirs: Seq<Seq<char>>, probes: Seq<bool>) -> Option<
    Kind,
> {
    match builtin_kind(t) {
        Some(k) => Some(k),
        None => if !plain_name(t) {
            None
        } else {
            match hit_from(probes, 0) {
                Some(i) => Some(Kind::External { name: t, path: joined(dirs[i], t) }),
                None => None,
            }
        },
    }
}

/// The word that names a command.
pub open spec fn name_of(k: Kind) -> Seq<char> {
    match k {
        Kind::Exit => "exit"@,
        Kind::Echo => "echo"@,
        Kind::Type => "type"@,
        Kind::Pwd => "pwd"@,
        Kind::Cd => "cd"@,
        Kind::External { name, path: _ } => name,
    }
}

/// Whether two commands are of the same variant.
pub open spec fn same_kind(a: Kind, b: Kind) -> bool {
    match (a, b) {
        (Kind::Exit, Kind::Exit) => true,
        (Kind::Echo, Kind::Echo) => true,
        (Kind::Type, Kind::Type) => true,
        (Kind::Pwd, Kind::Pwd) => true,
        (Kind::Cd, Kind::Cd) => true,
        (Kind::External { .. }, Kind::External { .. }) => true,
        _ => false,
    }
}

/// Relies on std's `Path::exists`: whether an entry stands at `p` in the file system at the
/// moment of the call. That depends on the disk, so nothing is promised of the result.
#[verifier::external_body]
pub(crate) fn path_exists(p: &str) -> (r: bool) {
    std::path::Path::new(p).exists()
}

/// Whether `s` is not empty and holds no `/`.
pub fn is_plain_name(s: &str) -> (r: bool)
    ensures
        r == plain_name(s@),
{
    let n = s.unicode_len();
    if n == 0 {
        return false;
    }
    let mut i: usize = 0;
    while i < n
        invariant
            n == s@.len(),
            i <= n,
            forall|j: int| 0 <= j < i ==> s@[j] != '/',
        decreases n - i,
    {
        if s.get_char(i) == '/' {
            return false;
        }
        i = i + 1;
    }
    true
}

impl CommandName {
    /// The built-in that `s` names, if it is a reserved word.
    fn builtin(s: &str) -> (r: Option<CommandName>)
        ensures
            kind_of(r) == builtin_kind(s@),
    {
        if same_text(s, "exit") {
            Some(CommandName::Exit)
        } else if same_text(s, "echo") {
            Some(CommandName::Echo)
        } else if same_text(s, "type") {
            Some(CommandName::Type)
        } else if same_text(s, "pwd") {
            Some(CommandName::Pwd)
        } else if same_text(s, "cd") {
            Some(CommandName::Cd)
        } else {
            None
        }
    }

    /// Resolves `s`, given for each search directory whether it holds a file of that name.
    pub fn resolve_with(s: &str, config: &Config, present: &Vec<bool>) -> (r: Option<
        CommandName,
    >)
        requires
            present@.len() == config.path@.len(),
        ensures
            kind_of(r) == resolve_spec(s@, config.dirs(), present@),
    {
        let b = Self::builtin(s);
        if b.is_some() {
            return b;
        }
        if !is_plain_name(s) {
            return None;
        }
        let mut i: usize = 0;
        while i < present.len()
            invariant
                present@.len() == config.path@.len(),
                i <= present@.len(),
                builtin_kind(s@) is None,
                plain_name(s@),
                hit_from(present@, 0) == hit_from(present@, i as int),
            decreases present.len() - i,
        {
            if present[i] {
                let path = join_path(config.path[i].as_str(), s);
                assert(config.dirs()[i as int] == config.path@[i as int]@);
                return Some(CommandName::Other { name: String::from_str(s), path });
            }
            i = i + 1;
        }
        None
    }

    /// Resolves `s`: a reserved word gives its built-in without looking at the disk; any other
    /// word without `/` is looked for in each search directory in turn until one holds it. What the disk
    /// holds is not known beforehand, so the result is stated for some outcome of those looks.
    pub fn from_str(s: &str, config: &Config) -> (r: Option<CommandName>)
        ensures
            builtin_kind(s@) is Some ==> kind_of(r) == builtin_kind(s@),
            exists|p: Seq<bool>|
                p.len() == config.path@.len() && kind_of(r) == resolve_spec(s@, config.dirs(), p),
    {
        let b = Self::builtin(s);
        if b.is_some() {
            let ghost p = Seq::new(config.path@.len(), |j: int| false);
            assert(kind_of(b) == resolve_spec(s@, config.dirs(), p));
            return b;
        }
        if !is_plain_name(s) {
            let ghost p = Seq::new(config.path@.len(), |j: int| false);
            assert(kind_of(None) == resolve_spec(s@, config.dirs(), p));
            return None;
        }
        let mut present: Vec<bool> = Vec::new();
        let mut found = false;
        let mut i: usize = 0;
        while i < config.path.len()
            invariant
                i <= config.path@.len(),
                present@.len() == i,
            decreases config.path.len() - i,
        {
            if found {
                present.push(false);
            } else {
                let candidate = join_path(config.path[i].as_str(), s);
                let here = path_exists(candidate.as_str());
                found = here;
                present.push(here);
            }
            i = i + 1;
        }
        let r = Self::resolve_with(s, config, &present);
        assert(kind_of(r) == resolve_spec(s@, config.dirs(), present@));
        r
    }

    /// The word that names the command.
    pub fn to_string(&self) -> (r: String)
        ensures
            r@ == name_of(self@),
    {
        match self {
            CommandName::Exit => String::from_str("exit"),
            CommandName::Echo => String::from_str("echo"),
            CommandName::Type => String::from_str("type"),
            CommandName::Pwd => String::from_str("pwd"),
            CommandName::Cd => String::from_str("cd"),
            CommandName::Other { name, path: _ } => name.clone(),
        }
    }
}

impl PartialEq for CommandName {
    fn eq(&self, other: &CommandName) -> (r: bool) {
        match (self, other) {
            (CommandName::Exit, CommandName::Exit) => true,
            (CommandName::Echo, CommandName::Echo) => true,
            (CommandName::Type, CommandName::Type) => true,
            (CommandName::Pwd, CommandName::Pwd) => true,
            (CommandName::Cd, CommandName::Cd) => true,
            (CommandName::Other { .. }, CommandName::Other { .. }) => true,
            _ => false,
        }
    }
}

impl vstd::std_specs::cmp::PartialEqSpecImpl for CommandName {
    open spec fn obeys_eq_spec() -> bool {
        true
    }

    open spec fn eq_spec(&self, other: &CommandName) -> bool {
        same_kind(self@, other@)
    }
}

/// A parsed input line: the resolved command word and the words after it.
pub struct Command {
    pub command: CommandName,
    pub args: Vec<String>,
}

impl View for Command {
    type V = (Kind, Seq<Seq<char>>);

    open spec fn view(&self) -> (Kind, Seq<Seq<char>>) {
        (self.command@, views(self.args@))
    }
}

/// What a parse result stands for.
pub open spec fn parsed(r: Option<Command>) -> Option<(Kind, Seq<Seq<char>>)> {
    match r {
        Some(c) => Some(c@),
        None => None,
    }
}

/// The invocation that `line` writes under the given probe outcomes for its first word:
/// nothing for a blank line or an unknown command.
pub open spec fn parse_spec(line: Seq<char>, dirs: Seq<Seq<char>>, probes: Seq<bool>) -> Option<
    (Kind, Seq<Seq<char>>),
> {
    let ws = words(line);
    if ws.len() == 0 {
        None
    } else {
        match resolve_spec(ws[0], dirs, probes) {
            Some(k) => Some((k, ws.drop_first())),
            None => None,
        }
    }
}

impl Command {
    pub fn new(command: CommandName, args: Vec<String>) -> (r: Command)
        ensures
            r.command == command,
            r.args == args,
    {
        Command { command, args }
    }

    /// Parses `s`: its first word is resolved, and the words after it are the arguments.
    /// A blank line gives `None`, as does a first word that names no command.
    pub fn from_str(s: &str, config: &Config) -> (r: Option<Command>)
        ensures
            words(s@).len() == 0 ==> r is None,
            words(s@).len() > 0 && builtin_kind(words(s@)[0]) is Some ==> parsed(r) == Some(
                (builtin_kind(words(s@)[0])->0, words(s@).drop_first()),
            ),
            exists|p: Seq<bool>|
                p.len() == config.path@.len() && parsed(r) == parse_spec(s@, config.dirs(), p),
    {
        let mut ws = split_words(s);
        if ws.len() == 0 {
            let ghost p = Seq::new(config.path@.len(), |j: int| false);
            assert(parsed(None) == parse_spec(s@, config.dirs(), p));
            return None;
        }
        let ghost all = views(ws@);
        let first = ws.remove(0);
        assert(views(ws@) =~= all.drop_first());
        let found = CommandName::from_str(first.as_str(), config);
        let ghost p = choose|p: Seq<bool>|
            p.len() == config.path@.len() && kind_of(found) == resolve_spec(
                first@,
                config.dirs(),
                p,
            );
        match found {
            Some(command) => {
                let r = Some(Command::new(command, ws));
                assert(parsed(r) == parse_spec(s@, config.dirs(), p));
                r
            },
            None => {
                assert(parsed(None) == parse_spec(s@, config.dirs(), p));
                None
            },
        }
    }

    /// Whether the command is one of the shell's own.
    pub fn is_builtin(&self) -> (r: bool)
        ensures
            r == !(self.command is Other),
    {
        !matches!(&self.command, CommandName::Other { .. })
    }
}

proof fn lemma_hit_at(probes: Seq<bool>, k: int, i: int)
    requires
        0 <= k <= i < probes.len(),
        probes[i],
        forall|j: int| k <= j < i ==> !probes[j],
    ensures
        hit_from(probes, k) == Some(i),
    decreases i - k,
{
    if k < i {
        lemma_hit_at(probes, k + 1, i);
    }
}

proof fn lemma_no_hit(probes: Seq<bool>, k: int)
    requires
        0 <= k <= probes.len(),
        forall|j: int| k <= j < probes.len() ==> !probes[j],
    ensures
        hit_from(probes, k) is None,
    decreases probes.len() - k,
{
    if k < probes.len() {
        lemma_no_hit(probes, k + 1);
    }
}

/// A reserved word resolves to its built-in whatever the search directories hold, even where
/// one of them holds a file of that name.
pub proof fn lemma_builtins_come_first(t: Seq<char>, dirs: Seq<Seq<char>>, probes: Seq<bool>)
    requires
        builtin_kind(t) is Some,
    ensures
        resolve_spec(t, dirs, probes) == builtin_kind(t),
        forall|q: Seq<bool>| #[trigger] resolve_spec(t, dirs, q) == resolve_spec(t, dirs, probes),
{
}

/// Any other word resolves to a program in the first directory, in search order, that holds
/// a file of that name directly, and to nothing where none does. A word that is empty or
/// holds `/` names no such file and resolves to nothing.
pub proof fn lemma_first_directory_wins(t: Seq<char>, dirs: Seq<Seq<char>>, probes: Seq<bool>)
    requires
        builtin_kind(t) is None,
        probes.len() == dirs.len(),
    ensures
        !plain_name(t) ==> resolve_spec(t, dirs, probes) is None,
        forall|i: int|
            plain_name(t) && 0 <= i < probes.len() && probes[i] && (forall|j: int| 0 <= j < i ==> !probes[j])
                ==> resolve_spec(t, dirs, probes) == Some(
                Kind::External { name: t, path: joined(#[trigger] dirs[i], t) },
            ),
        plain_name(t) && (forall|i: int| 0 <= i < probes.len() ==> !probes[i]) ==> resolve_spec(t, dirs, probes)
            is None,
{
    assert forall|i: int|
        plain_name(t) && 0 <= i < probes.len() && probes[i] && (forall|j: int| 0 <= j < i ==> !probes[j])
            implies resolve_spec(t, dirs, probes) == Some(
        Kind::External { name: t, path: joined(#[trigger] dirs[i], t) },
    ) by {
        lemma_hit_at(probes, 0, i);
    }
    if forall|i: int| 0 <= i < probes.len() ==> !probes[i] {
        lemma_no_hit(probes, 0);
    }
}

/// Resolution settles: where a word resolves to a command, resolving that command's name
/// under the same directories and what they hold gives the same command again.
pub proof fn lemma_resolution_repeats(t: Seq<char>, dirs: Seq<Seq<char>>, probes: Seq<bool>)
    ensures
        resolve_spec(t, dirs, probes) is Some ==> resolve_spec(
            name_of(resolve_spec(t, dirs, probes)->0),
            dirs,
            probes,
        ) == resolve_spec(t, dirs, probes),
{
}

} // verus!
