use vstd::prelude::*;

use crate::text::views;

verus! {

/// Where the shell looks for programs, and the home directory that `~` stands for.
pub struct Config {
    /// The directories searched for a program, first match first.
    pub path: Vec<String>,
    /// What `~` stands for.
    pub home: String,
}

impl Config {
    /// The search directories, as text.
    pub open spec fn dirs(&self) -> Seq<Seq<char>> {
        views(self.path@)
    }

    pub fn new(path: Vec<String>, home: String) -> (r: Config)
        ensures
            r.path == path,
            r.home == home,
    {
        Config { path, home }
    }

    /// A configuration from a `:`-separated directory list and a home directory. The list is
    /// split as it stands: empty entries and directories that do not exist are kept.
    pub fn from_str(path: &str, home: &str) -> (r: Config)
        ensures
            r.dirs() == split_colons(path@),
            r.home@ == home@,
    {
        Config::new(split_at_colons(path), String::from_str(home))
    }
}

/// The pieces of `s` between `:` separators, given that `cur` was read just before it.
pub open spec fn pieces_after(s: Seq<char>, cur: Seq<char>) -> Seq<Seq<char>>
    decreases s.len(),
{
    if s.len() == 0 {
        seq![cur]
    } else if s[0] == ':' {
        seq![cur] + pieces_after(s.drop_first(), seq![])
    } else {
        pieces_after(s.drop_first(), cur.push(s[0]))
    }
}

/// The pieces of `s` between `:` separators, empty ones included: one more than there are
/// separators.
pub open spec fn split_colons(s: Seq<char>) -> Seq<Seq<char>> {
    pieces_after(s, seq![])
}

/// Splits `s` at each `:`.
pub fn split_at_colons(s: &str) -> (r: Vec<String>)
    ensures
        views(r@) == split_colons(s@),
{
    let n = s.unicode_len();
    let mut out: Vec<String> = Vec::new();
    let mut start: usize = 0;
    let mut i: usize = 0;
    assert(s@.subrange(0, n as int) =~= s@);
    assert(s@.subrange(0, 0) =~= seq![]);
    assert(views(out@) + split_colons(s@) =~= split_colons(s@));
    while i < n
        invariant
            n == s@.len(),
            start <= i <= n,
            split_colons(s@) == views(out@) + pieces_after(
                s@.subrange(i as int, n as int),
                s@.subrange(start as int, i as int),
            ),
        decreases n - i,
    {
        let c = s.get_char(i);
        let ghost rest = s@.subrange(i as int, n as int);
        let ghost cur = s@.subrange(start as int, i as int);
        let ghost before = out@;
        assert(rest.drop_first() =~= s@.subrange(i + 1, n as int));
        if c == ':' {
            out.push(String::from_str(s.substring_char(start, i)));
            assert(views(out@) =~= views(before) + seq![cur]);
            assert(s@.subrange(i + 1, i + 1) =~= seq![]);
            start = i + 1;
        } else {
            assert(cur.push(c) =~= s@.subrange(start as int, i + 1));
        }
        i = i + 1;
    }
    let ghost before = out@;
    out.push(String::from_str(s.substring_char(start, n)));
    assert(views(out@) =~= views(before) + seq![s@.subrange(start as int, n as int)]);
    out
}

/// `name` looked up under `dir`, as `Path::join` has it: a name that starts with `/` stands
/// alone, and a separator is put between the two only where `dir` does not end in one.
pub open spec fn joined(dir: Seq<char>, name: Seq<char>) -> Seq<char> {
    if name.len() > 0 && name[0] == '/' {
        name
    } else if dir.len() == 0 {
        name
    } else if dir.last() == '/' {
        dir + name
    } else {
        dir + seq!['/'] + name
    }
}

/// The path of `name` under `dir`.
pub fn join_path(dir: &str, name: &str) -> (r: String)
    ensures
        r@ == joined(dir@, name@),
{
    let n = name.unicode_len();
    let d = dir.unicode_len();
    if (n > 0 && name.get_char(0) == '/') || d == 0 {
        return String::from_str(name);
    }
    let mut out = String::from_str(dir);
    if dir.get_char(d - 1) != '/' {
        proof {
            reveal_strlit("/");
        }
        out.append("/");
    }
    out.append(name);
    out
}

} // verus!
