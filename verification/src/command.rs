//! The command lines that search a source tree, for ripgrep and, where it is missing, for grep.
use vstd::prelude::*;

use crate::path::FilePath;
use crate::pattern::{symbol_pattern, symbol_pattern_spec};
use crate::text::{decimal, decimal_text, optional_str, optional_view, readable, views};

verus! {

/// A program and what it is called with.
#[derive(Debug)]
pub struct CommandLine {
    /// The program.
    pub program: String,
    /// Its arguments, in order.
    pub args: Vec<String>,
}

/// What a content search is asked for.
#[derive(Debug)]
pub struct GrepQuery {
    /// The regular expression.
    pub pattern: String,
    /// The files to search, as a glob; all of them where there is none.
    pub glob: Option<String>,
    /// How many lines to show around each match.
    pub context_lines: usize,
    /// Whether upper and lower case count as the same.
    pub case_insensitive: bool,
    /// How many matching lines to give.
    pub max_results: usize,
}

/// The program that searches: ripgrep where it is installed.
pub open spec fn search_program(rg: bool) -> Seq<char> {
    if rg {
        "rg"@
    } else {
        "grep"@
    }
}

/// The arguments that restrict the search to the files of a glob.
pub open spec fn glob_args(rg: bool, glob: Option<Seq<char>>) -> Seq<Seq<char>> {
    match glob {
        Some(g) => seq![if rg { "--glob"@ } else { "--include"@ }, g],
        None => seq![],
    }
}

/// The arguments of a search for the definition of a symbol.
pub open spec fn symbol_args(
    rg: bool,
    pattern: Seq<char>,
    path: Seq<char>,
    glob: Option<Seq<char>>,
) -> Seq<Seq<char>> {
    let flags = if rg {
        seq!["--line-number"@, "--no-heading"@, "--color=never"@, "--max-count=50"@]
    } else {
        seq!["-rn"@, "--color=never"@, "-E"@]
    };
    flags + glob_args(rg, glob) + seq![pattern, path]
}

/// The arguments of a content search.
pub open spec fn grep_args(rg: bool, query: GrepQuery, path: Seq<char>) -> Seq<Seq<char>> {
    let context = decimal(query.context_lines as nat);
    let flags = if rg {
        seq![
            "--line-number"@,
            "--no-heading"@,
            "--color=never"@,
            "--context="@ + context,
            "--max-count="@ + decimal(query.max_results as nat),
        ]
    } else {
        seq!["-rn"@, "-C"@ + context, "--color=never"@]
    };
    let case = if query.case_insensitive {
        seq![if rg { "--ignore-case"@ } else { "-i"@ }]
    } else {
        seq![]
    };
    flags + case + glob_args(rg, optional_view(query.glob)) + seq![query.pattern@, path]
}

/// Adds an argument.
fn arg(args: &mut Vec<String>, text: &str)
    ensures
        views(final(args)@) == views(old(args)@).push(text@),
{
    args.push(text.to_owned());
    assert(views(args@) =~= views(old(args)@).push(text@));
}

/// Adds an argument that ends in a number.
fn numbered_arg(args: &mut Vec<String>, text: &str, n: usize)
    ensures
        views(final(args)@) == views(old(args)@).push(text@ + decimal(n as nat)),
{
    let mut whole = text.to_owned();
    whole.append(decimal_text(n as u128).as_str());
    args.push(whole);
    assert(views(args@) =~= views(old(args)@).push(text@ + decimal(n as nat)));
}

/// Adds the arguments that restrict the search to a glob.
fn glob_arg(args: &mut Vec<String>, rg: bool, glob: Option<&str>)
    ensures
        views(final(args)@) == views(old(args)@) + glob_args(rg, optional_str(glob)),
{
    if let Some(g) = glob {
        if rg {
            arg(args, "--glob");
        } else {
            arg(args, "--include");
        }
        arg(args, g);
    }
    assert(views(args@) =~= views(old(args)@) + glob_args(rg, optional_str(glob)));
}

/// The program that searches.
fn program_name(rg: bool) -> (program: String)
    ensures
        program@ == search_program(rg),
{
    if rg {
        "rg".to_owned()
    } else {
        "grep".to_owned()
    }
}

/// The command line that looks for a pattern of symbol definitions in and below `path`.
pub fn symbol_command_at(rg: bool, pattern: &str, path: &str, glob: Option<&str>) -> (command:
    CommandLine)
    ensures
        command.program@ == search_program(rg),
        views(command.args@) == symbol_args(rg, pattern@, path@, optional_str(glob)),
{
    let mut args: Vec<String> = Vec::new();
    if rg {
        arg(&mut args, "--line-number");
        arg(&mut args, "--no-heading");
        arg(&mut args, "--color=never");
        arg(&mut args, "--max-count=50");
    } else {
        arg(&mut args, "-rn");
        arg(&mut args, "--color=never");
        arg(&mut args, "-E");
    }
    glob_arg(&mut args, rg, glob);
    arg(&mut args, pattern);
    arg(&mut args, path);
    assert(views(args@) =~= symbol_args(rg, pattern@, path@, optional_str(glob)));
    CommandLine { program: program_name(rg), args }
}

/// The command line that looks for the definition of `query`, a symbol of the given kind, in and
/// below `path`.
pub fn symbol_search_command(
    query: &str,
    kind: &str,
    path: &FilePath,
    glob: Option<&str>,
    rg: bool,
) -> (command: CommandLine)
    ensures
        command.program@ == search_program(rg),
        views(command.args@) == symbol_args(
            rg,
            symbol_pattern_spec(query@, kind@),
            readable(path@),
            optional_str(glob),
        ),
{
    let pattern = symbol_pattern(query, kind);
    let place = path.display();
    symbol_command_at(rg, pattern.as_str(), place.as_str(), glob)
}

/// The command line of a content search in and below `path`.
pub fn grep_command_at(rg: bool, query: &GrepQuery, path: &str) -> (command: CommandLine)
    ensures
        command.program@ == search_program(rg),
        views(command.args@) == grep_args(rg, *query, path@),
{
    let mut args: Vec<String> = Vec::new();
    if rg {
        arg(&mut args, "--line-number");
        arg(&mut args, "--no-heading");
        arg(&mut args, "--color=never");
        numbered_arg(&mut args, "--context=", query.context_lines);
        numbered_arg(&mut args, "--max-count=", query.max_results);
    } else {
        arg(&mut args, "-rn");
        numbered_arg(&mut args, "-C", query.context_lines);
        arg(&mut args, "--color=never");
    }
    if query.case_insensitive {
        if rg {
            arg(&mut args, "--ignore-case");
        } else {
            arg(&mut args, "-i");
        }
    }
    match &query.glob {
        Some(g) => glob_arg(&mut args, rg, Some(g.as_str())),
        None => glob_arg(&mut args, rg, None),
    }
    arg(&mut args, query.pattern.as_str());
    arg(&mut args, path);
    assert(views(args@) =~= grep_args(rg, *query, path@));
    CommandLine { program: program_name(rg), args }
}

/// The command line of a content search in and below `path`.
pub fn grep_search_command(query: &GrepQuery, path: &FilePath, rg: bool) -> (command: CommandLine)
    ensures
        command.program@ == search_program(rg),
        views(command.args@) == grep_args(rg, *query, readable(path@)),
{
    let place = path.display();
    grep_command_at(rg, query, place.as_str())
}

// ---- Laws ----

/// Whichever program searches, the pattern and then the path are its last two arguments, each as
/// it is, so that neither can be taken apart into more.
pub proof fn law_pattern_and_path_come_last(
    rg: bool,
    pattern: Seq<char>,
    path: Seq<char>,
    glob: Option<Seq<char>>,
    query: GrepQuery,
)
    ensures
        ({
            let args = symbol_args(rg, pattern, path, glob);
            args[args.len() - 2] == pattern && args.last() == path
        }),
        ({
            let args = grep_args(rg, query, path);
            args[args.len() - 2] == query.pattern@ && args.last() == path
        }),
{
}

/// A search for symbols hands a glob on behind its flag, and is otherwise the same as without one.
pub proof fn law_symbol_glob_is_handed_on(rg: bool, pattern: Seq<char>, path: Seq<char>, glob: Seq<char>)
    ensures
        ({
            let with = symbol_args(rg, pattern, path, Some(glob));
            let without = symbol_args(rg, pattern, path, None);
            &&& with.len() == without.len() + 2
            &&& with[with.len() - 3] == glob
            &&& with[with.len() - 4] == (if rg { "--glob"@ } else { "--include"@ })
            &&& with.take(with.len() - 4) == without.take(without.len() - 2)
        }),
{
    let with = symbol_args(rg, pattern, path, Some(glob));
    let without = symbol_args(rg, pattern, path, None);
    assert(with.take(with.len() - 4) =~= without.take(without.len() - 2));
}

/// The program is ripgrep where it is installed, and else grep.
pub proof fn law_ripgrep_is_used_where_installed()
    ensures
        search_program(true) == "rg"@,
        search_program(false) == "grep"@,
{
}

/// How many arguments stand before the glob of a content search, its pattern and its path.
pub open spec fn flags_before(args: Seq<Seq<char>>, query: GrepQuery) -> int {
    args.len() - 2 - if query.glob is Some {
        2int
    } else {
        0
    }
}

/// A content search is told to take upper and lower case as the same exactly where that is asked
/// for: the flag stands among those before the glob, the pattern and the path, and taking it out
/// gives the search that minds the case.
pub proof fn law_case_is_ignored_where_asked(rg: bool, query: GrepQuery, path: Seq<char>)
    ensures
        ({
            let flag = if rg {
                "--ignore-case"@
            } else {
                "-i"@
            };
            let args = grep_args(rg, query, path);
            args.take(flags_before(args, query)).contains(flag) <==> query.case_insensitive
        }),
        ({
            let with = grep_args(rg, GrepQuery { case_insensitive: true, ..query }, path);
            let without = grep_args(rg, GrepQuery { case_insensitive: false, ..query }, path);
            with.remove(flags_before(with, query) - 1) == without
        }),
{
    let flag = if rg {
        "--ignore-case"@
    } else {
        "-i"@
    };
    let args = grep_args(rg, query, path);
    let n = flags_before(args, query);
    reveal_strlit("--ignore-case");
    reveal_strlit("-i");
    reveal_strlit("--line-number");
    reveal_strlit("--no-heading");
    reveal_strlit("--color=never");
    reveal_strlit("--context=");
    reveal_strlit("--max-count=");
    reveal_strlit("-rn");
    reveal_strlit("-C");
    let context = decimal(query.context_lines as nat);
    assert(("--context="@ + context)[2] == 'c');
    assert(("--max-count="@ + decimal(query.max_results as nat))[2] == 'm');
    assert(("-C"@ + context)[1] == 'C');
    assert("--ignore-case"@[2] == 'i');
    assert("-i"@[1] == 'i');
    assert("--line-number"@[2] == 'l');
    assert("--no-heading"@[2] == 'n');
    assert("--color=never"@[2] == 'c' && "--color=never"@[1] == '-');
    assert("-rn"@[1] == 'r');
    if query.case_insensitive {
        assert(args.take(n)[n - 1] == flag);
    } else {
        assert forall|i: int| 0 <= i < n implies #[trigger] args.take(n)[i] != flag by {}
    }
    let with = grep_args(rg, GrepQuery { case_insensitive: true, ..query }, path);
    let without = grep_args(rg, GrepQuery { case_insensitive: false, ..query }, path);
    assert(with.remove(flags_before(with, query) - 1) =~= without);
}

/// A content search hands a glob on behind its flag, and is otherwise the same as without one.
pub proof fn law_grep_glob_is_handed_on(rg: bool, query: GrepQuery, path: Seq<char>, glob: String)
    ensures
        ({
            let with = grep_args(rg, GrepQuery { glob: Some(glob), ..query }, path);
            let without = grep_args(rg, GrepQuery { glob: None, ..query }, path);
            &&& with.len() == without.len() + 2
            &&& with[with.len() - 3] == glob@
            &&& with[with.len() - 4] == (if rg { "--glob"@ } else { "--include"@ })
            &&& with.take(with.len() - 4) == without.take(without.len() - 2)
        }),
{
    let with = grep_args(rg, GrepQuery { glob: Some(glob), ..query }, path);
    let without = grep_args(rg, GrepQuery { glob: None, ..query }, path);
    assert(with.take(with.len() - 4) =~= without.take(without.len() - 2));
}

/// A content search that minds the case and has no glob asks for line numbers and for plain
/// output, then for as many lines around each match, and of ripgrep for as many matches in a file,
/// as are wanted, in decimal; the pattern and the path follow, and nothing else.
pub proof fn law_grep_asks_for_what_is_wanted(rg: bool, query: GrepQuery, path: Seq<char>)
    requires
        !query.case_insensitive,
        query.glob is None,
    ensures
        rg ==> grep_args(rg, query, path) == seq![
            "--line-number"@,
            "--no-heading"@,
            "--color=never"@,
            "--context="@ + decimal(query.context_lines as nat),
            "--max-count="@ + decimal(query.max_results as nat),
            query.pattern@,
            path,
        ],
        !rg ==> grep_args(rg, query, path) == seq![
            "-rn"@,
            "-C"@ + decimal(query.context_lines as nat),
            "--color=never"@,
            query.pattern@,
            path,
        ],
{
    if rg {
        assert(grep_args(rg, query, path) =~= seq![
            "--line-number"@,
            "--no-heading"@,
            "--color=never"@,
            "--context="@ + decimal(query.context_lines as nat),
            "--max-count="@ + decimal(query.max_results as nat),
            query.pattern@,
            path,
        ]);
    } else {
        assert(grep_args(rg, query, path) =~= seq![
            "-rn"@,
            "-C"@ + decimal(query.context_lines as nat),
            "--color=never"@,
            query.pattern@,
            path,
        ]);
    }
}

/// A search for symbols without a glob asks for line numbers and for plain output, of ripgrep for
/// fifty matches in a file at most and of grep for extended patterns; the pattern and the path
/// follow, and nothing else.
pub proof fn law_symbol_search_asks_for_what_is_wanted(pattern: Seq<char>, path: Seq<char>)
    ensures
        symbol_args(true, pattern, path, None) == seq![
            "--line-number"@,
            "--no-heading"@,
            "--color=never"@,
            "--max-count=50"@,
            pattern,
            path,
        ],
        symbol_args(false, pattern, path, None) == seq![
            "-rn"@,
            "--color=never"@,
            "-E"@,
            pattern,
            path,
        ],
{
    assert(symbol_args(true, pattern, path, None) =~= seq![
        "--line-number"@,
        "--no-heading"@,
        "--color=never"@,
        "--max-count=50"@,
        pattern,
        path,
    ]);
    assert(symbol_args(false, pattern, path, None) =~= seq![
        "-rn"@,
        "--color=never"@,
        "-E"@,
        pattern,
        path,
    ]);
}

} // verus!
