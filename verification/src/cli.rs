//! The command line: what it asks for, and the thread list of an input file.
use vstd::prelude::*;
use crate::text::{chars_of, split_char, split_spec, string_from_chars, trim, trim_spec};

verus! {

/// The arguments of the program.
#[derive(Debug, Clone)]
pub struct Cli {
    /// A subcommand; none means downloading.
    pub command: Option<Commands>,
    /// The configuration file (`~/forum-saver.toml` when absent).
    pub config_path: Option<String>,
    /// One thread to download.
    pub thread_url: Option<String>,
    /// A file listing threads to download, one per line.
    pub input_file: Option<String>,
}

/// The subcommands.
#[derive(Debug, Clone)]
pub enum Commands {
    /// Writes a sample configuration file (to `~/forum-saver.toml` when no
    /// path is given).
    GenConfig { output_path: Option<String> },
}

/// Whether a trimmed line of a thread list names a thread: lines that are
/// empty or start with `#` do not.
pub open spec fn is_listed(line: Seq<char>) -> bool {
    line.len() > 0 && line[0] != '#'
}

/// The listed threads among `lines[..n]`, each trimmed, in order.
pub open spec fn listed_among(lines: Seq<Seq<char>>, n: int) -> Seq<Seq<char>>
    decreases n,
{
    if n <= 0 || n > lines.len() {
        Seq::empty()
    } else if is_listed(trim_spec(lines[n - 1])) {
        listed_among(lines, n - 1).push(trim_spec(lines[n - 1]))
    } else {
        listed_among(lines, n - 1)
    }
}

/// The threads an input file lists: its lines, trimmed, without the empty
/// ones and the comments (`#`).
pub open spec fn listed_threads(content: Seq<char>) -> Seq<Seq<char>> {
    listed_among(split_spec(content, '\n'), split_spec(content, '\n').len() as int)
}

/// The thread addresses that an input file lists (see `listed_threads`).
pub fn thread_urls(content: &str) -> (r: Vec<String>)
    ensures
        r@.map_values(|s: String| s@) == listed_threads(content@),
{
    let lines = split_char(&chars_of(content), '\n');
    let ghost ls = split_spec(content@, '\n');
    let mut out: Vec<String> = Vec::new();
    let mut i: usize = 0;
    while i < lines.len()
        invariant
            i <= lines.len(),
            ls == split_spec(content@, '\n'),
            lines@.len() == ls.len(),
            forall|j: int| 0 <= j < lines@.len() ==> (#[trigger] lines@[j])@ == ls[j],
            out@.map_values(|s: String| s@) == listed_among(ls, i as int),
        decreases lines.len() - i,
    {
        let t = trim(&lines[i]);
        assert(t@ == trim_spec(ls[i as int]));
        if t.len() > 0 && t[0] != '#' {
            let ghost before = out@.map_values(|s: String| s@);
            out.push(string_from_chars(&t));
            assert(out@.map_values(|s: String| s@) =~= before.push(t@));
        }
        i = i + 1;
    }
    out
}

} // verus!
