//! Command-line arguments: what they ask for, and where the explorer opens.
use vstd::prelude::*;

use crate::paths::{is_absolute, join, parent, path_join, path_parent};
use crate::text::{chars_of, concat3, is_prefix, str_eq, string_from_chars};

verus! {

/// The usage text printed for `--help` and after an argument error.
pub const HELP: &'static str = "\
A fast, keyboard-driven file explorer

Usage: zex [OPTIONS] [PATH]
       zex config [KEY]

Arguments:
  [PATH]  Directory to open, or a file whose parent directory should open
          with it selected. Relative paths resolve against the current
          working directory

Options:
      --disk-usage      Open straight into the disk usage view, rooted at
                         PATH if given
      --select <FILE>   Open FILE's parent directory with FILE selected
      --config <FILE>   Load settings from FILE instead of the default
                         config location
  -h, --help            Print help
  -V, --version         Print version

Commands:
  config [KEY]  List config keys, or show docs for one (e.g. `zex config
                inherit_from_zed`)
";

/// A subcommand.
#[derive(Debug)]
pub enum Command {
    /// List the config keys, or show the documentation of one.
    Config { key: Option<String> },
}

/// What the command line asked for.
#[derive(Debug)]
pub struct Cli {
    pub path: Option<String>,
    pub disk_usage: bool,
    pub select: Option<String>,
    pub config: Option<String>,
    pub command: Option<Command>,
}

/// What a parsed command line leads to.
#[derive(Debug)]
pub enum ParseOutcome {
    /// Run with these arguments.
    Run(Cli),
    /// Print the usage text and stop.
    Help,
    /// Print the version and stop.
    Version,
}

/// A subcommand, as plain values.
pub enum CommandView {
    Config { key: Option<Seq<char>> },
}

/// The parsed command line, as plain values.
pub struct CliView {
    pub path: Option<Seq<char>>,
    pub disk_usage: bool,
    pub select: Option<Seq<char>>,
    pub config: Option<Seq<char>>,
    pub command: Option<CommandView>,
}

/// What parsing the arguments gives, as plain values.
pub enum ParsedView {
    Run(CliView),
    Help,
    Version,
}

pub open spec fn opt_view(o: Option<String>) -> Option<Seq<char>> {
    match o {
        Some(s) => Some(s@),
        None => None,
    }
}

impl View for Command {
    type V = CommandView;

    open spec fn view(&self) -> CommandView {
        match self {
            Command::Config { key } => CommandView::Config { key: opt_view(*key) },
        }
    }
}

impl View for Cli {
    type V = CliView;

    open spec fn view(&self) -> CliView {
        CliView {
            path: opt_view(self.path),
            disk_usage: self.disk_usage,
            select: opt_view(self.select),
            config: opt_view(self.config),
            command: match self.command {
                Some(c) => Some(c@),
                None => None,
            },
        }
    }
}

impl View for ParseOutcome {
    type V = ParsedView;

    open spec fn view(&self) -> ParsedView {
        match self {
            ParseOutcome::Run(cli) => ParsedView::Run(cli@),
            ParseOutcome::Help => ParsedView::Help,
            ParseOutcome::Version => ParsedView::Version,
        }
    }
}

pub open spec fn parse_result_view(r: Result<ParseOutcome, String>) -> Result<ParsedView, Seq<char>> {
    match r {
        Ok(o) => Ok(o@),
        Err(e) => Err(e@),
    }
}

pub open spec fn no_options() -> CliView {
    CliView { path: None, disk_usage: false, select: None, config: None, command: None }
}

pub open spec fn select_with_path_error() -> Seq<char> {
    "the argument '--select <FILE>' cannot be used with a PATH argument"@
}

pub open spec fn unexpected_argument(a: Seq<char>) -> Seq<char> {
    "unexpected argument '"@ + a + "'"@
}

/// The options from position `i` on, read into `st`, one argument at a
/// time: `--select` and `--config` take the next argument as their value,
/// and the first help or version flag ends the reading.
pub open spec fn parse_options(args: Seq<Seq<char>>, i: int, st: CliView) -> Result<
    ParsedView,
    Seq<char>,
>
    decreases args.len() - i,
{
    if i < 0 || i >= args.len() {
        Ok(ParsedView::Run(st))
    } else {
        let a = args[i];
        if a == "-h"@ || a == "--help"@ {
            Ok(ParsedView::Help)
        } else if a == "-V"@ || a == "--version"@ {
            Ok(ParsedView::Version)
        } else if a == "--disk-usage"@ {
            parse_options(args, i + 1, CliView { disk_usage: true, ..st })
        } else if a == "--select"@ {
            if i + 1 >= args.len() {
                Err("--select requires a value"@)
            } else if st.path is Some {
                Err(select_with_path_error())
            } else {
                parse_options(args, i + 2, CliView { select: Some(args[i + 1]), ..st })
            }
        } else if a == "--config"@ {
            if i + 1 >= args.len() {
                Err("--config requires a value"@)
            } else {
                parse_options(args, i + 2, CliView { config: Some(args[i + 1]), ..st })
            }
        } else if is_prefix("--"@, a) {
            Err("unknown option '"@ + a + "'"@)
        } else if st.select is Some {
            Err(select_with_path_error())
        } else if st.path is Some {
            Err(unexpected_argument(a))
        } else {
            parse_options(args, i + 1, CliView { path: Some(a), ..st })
        }
    }
}

/// The meaning of a command line (the program name left out): `config`
/// first is the config subcommand with an optional key and nothing after
/// it; otherwise the options and at most one path.
pub open spec fn spec_try_parse(args: Seq<Seq<char>>) -> Result<ParsedView, Seq<char>> {
    if args.len() > 0 && args[0] == "config"@ {
        if args.len() > 2 {
            Err(unexpected_argument(args[2]))
        } else {
            Ok(
                ParsedView::Run(
                    CliView {
                        command: Some(
                            CommandView::Config {
                                key: if args.len() == 2 {
                                    Some(args[1])
                                } else {
                                    None
                                },
                            },
                        ),
                        ..no_options()
                    },
                ),
            )
        }
    } else {
        parse_options(args, 0, no_options())
    }
}

/// The help and version flags, short or long, asked for first: the command
/// line means help or the version, whatever follows.
pub proof fn lemma_help_and_version_first(args: Seq<Seq<char>>)
    requires
        args.len() > 0,
    ensures
        (args[0] == "-V"@ || args[0] == "--version"@) ==> spec_try_parse(args) == Ok::<
            ParsedView,
            Seq<char>,
        >(ParsedView::Version),
        (args[0] == "-h"@ || args[0] == "--help"@) ==> spec_try_parse(args) == Ok::<
            ParsedView,
            Seq<char>,
        >(ParsedView::Help),
{
    reveal_strlit("-V");
    reveal_strlit("--version");
    reveal_strlit("-h");
    reveal_strlit("--help");
    reveal_strlit("config");
    let a = args[0];
    if a == "-V"@ || a == "--version"@ || a == "-h"@ || a == "--help"@ {
        assert(a[0] == '-');
        assert("config"@[0] == 'c');
        assert(a != "config"@);
        if a == "-V"@ {
            assert(a.len() == 2 && a[1] == 'V');
            assert("-h"@[1] == 'h');
            assert(a != "-h"@);
            assert("--help"@.len() == 6);
            assert(a != "--help"@);
        }
        if a == "--version"@ {
            assert(a.len() == 9);
            assert("-h"@.len() == 2);
            assert("--help"@.len() == 6);
            assert(a != "-h"@ && a != "--help"@);
        }
        assert(parse_options(args, 0, no_options()) == spec_try_parse(args));
    }
}

/// Flags read as the same whether short or long: a command line starting
/// with `-V` means what it means starting with `--version`, and `-h` what
/// `--help` does.
pub proof fn lemma_short_and_long_flags_agree(rest: Seq<Seq<char>>)
    ensures
        spec_try_parse(seq!["-V"@] + rest) == spec_try_parse(seq!["--version"@] + rest),
        spec_try_parse(seq!["-h"@] + rest) == spec_try_parse(seq!["--help"@] + rest),
{
    lemma_help_and_version_first(seq!["-V"@] + rest);
    lemma_help_and_version_first(seq!["--version"@] + rest);
    lemma_help_and_version_first(seq!["-h"@] + rest);
    lemma_help_and_version_first(seq!["--help"@] + rest);
}

/// A lone argument that is no option and no subcommand is the folder to
/// open, with no other option set.
pub proof fn lemma_lone_path(a: Seq<char>)
    requires
        a.len() > 0,
        a[0] != '-',
        a != "config"@,
    ensures
        spec_try_parse(seq![a]) == Ok::<ParsedView, Seq<char>>(
            ParsedView::Run(CliView { path: Some(a), ..no_options() }),
        ),
{
    reveal_strlit("-V");
    reveal_strlit("--version");
    reveal_strlit("-h");
    reveal_strlit("--help");
    reveal_strlit("--disk-usage");
    reveal_strlit("--select");
    reveal_strlit("--config");
    reveal_strlit("--");
    let args = seq![a];
    assert(args[0] == a);
    assert(a != "-V"@ && a != "--version"@ && a != "-h"@ && a != "--help"@) by {
        assert("-V"@[0] == '-');
        assert("--version"@[0] == '-');
        assert("-h"@[0] == '-');
        assert("--help"@[0] == '-');
    }
    assert(a != "--disk-usage"@ && a != "--select"@ && a != "--config"@) by {
        assert("--disk-usage"@[0] == '-');
        assert("--select"@[0] == '-');
        assert("--config"@[0] == '-');
    }
    assert(!is_prefix("--"@, a)) by {
        if is_prefix("--"@, a) {
            assert(a.take(2)[0] == "--"@[0]);
        }
    }
    assert(parse_options(args, 1, CliView { path: Some(a), ..no_options() }) == Ok::<
        ParsedView,
        Seq<char>,
    >(ParsedView::Run(CliView { path: Some(a), ..no_options() })));
}

proof fn lemma_flag_literals()
    ensures
        "-h"@.len() == 2 && "-h"@[0] == '-' && "-h"@[1] == 'h',
        "-V"@.len() == 2 && "-V"@[0] == '-' && "-V"@[1] == 'V',
        "--help"@.len() == 6 && "--help"@[0] == '-',
        "--version"@.len() == 9 && "--version"@[0] == '-',
        "--disk-usage"@.len() == 12 && "--disk-usage"@[0] == '-',
        "--select"@.len() == 8 && "--select"@[0] == '-' && "--select"@[2] == 's',
        "--config"@.len() == 8 && "--config"@[0] == '-' && "--config"@[2] == 'c',
        "config"@.len() == 6 && "config"@[0] == 'c',
        "--"@ == seq!['-', '-'],
{
    reveal_strlit("-h");
    reveal_strlit("-V");
    reveal_strlit("--help");
    reveal_strlit("--version");
    reveal_strlit("--disk-usage");
    reveal_strlit("--select");
    reveal_strlit("--config");
    reveal_strlit("config");
    reveal_strlit("--");
    assert("--"@ =~= seq!['-', '-']);
}

/// What the options mean on their own: `--disk-usage` asks for the disk
/// usage view, `--select` and `--config` take the next argument as the
/// entry to select and the settings file (and fail without one); a path
/// and `--select` cannot go together, a second path is unexpected, and an
/// unknown `--` option is refused.
pub proof fn lemma_options_meaning(v: Seq<char>, p: Seq<char>, q: Seq<char>, o: Seq<char>)
    requires
        p.len() > 0 && p[0] != '-' && p != "config"@,
        q.len() > 0 && q[0] != '-',
        o.len() > 2 && o[0] == '-' && o[1] == '-' && o != "--help"@ && o != "--version"@ && o
            != "--disk-usage"@ && o != "--select"@ && o != "--config"@,
    ensures
        spec_try_parse(seq!["--disk-usage"@]) == Ok::<ParsedView, Seq<char>>(
            ParsedView::Run(CliView { disk_usage: true, ..no_options() }),
        ),
        spec_try_parse(seq!["--select"@, v]) == Ok::<ParsedView, Seq<char>>(
            ParsedView::Run(CliView { select: Some(v), ..no_options() }),
        ),
        spec_try_parse(seq!["--config"@, v]) == Ok::<ParsedView, Seq<char>>(
            ParsedView::Run(CliView { config: Some(v), ..no_options() }),
        ),
        spec_try_parse(seq!["--select"@]) == Err::<ParsedView, Seq<char>>("--select requires a value"@),
        spec_try_parse(seq!["--config"@]) == Err::<ParsedView, Seq<char>>("--config requires a value"@),
        spec_try_parse(seq![p, "--select"@, v]) == Err::<ParsedView, Seq<char>>(select_with_path_error()),
        spec_try_parse(seq![p, q]) == Err::<ParsedView, Seq<char>>(unexpected_argument(q)),
        spec_try_parse(seq![o]) == Err::<ParsedView, Seq<char>>("unknown option '"@ + o + "'"@),
{
    lemma_flag_literals();
    let du = seq!["--disk-usage"@];
    assert(du[0] == "--disk-usage"@);
    assert(du[0] != "config"@ && du[0] != "-h"@ && du[0] != "--help"@ && du[0] != "-V"@ && du[0]
        != "--version"@);
    let st_du = CliView { disk_usage: true, ..no_options() };
    assert(parse_options(du, 1, st_du) == Ok::<ParsedView, Seq<char>>(ParsedView::Run(st_du)));
    assert(parse_options(du, 0, no_options()) == parse_options(du, 1, st_du));
    let sv = seq!["--select"@, v];
    assert(sv[0] == "--select"@ && sv[1] == v);
    assert(sv[0] != "config"@ && sv[0] != "-h"@ && sv[0] != "--help"@ && sv[0] != "-V"@ && sv[0]
        != "--version"@ && sv[0] != "--disk-usage"@);
    let st_sv = CliView { select: Some(v), ..no_options() };
    assert(parse_options(sv, 2, st_sv) == Ok::<ParsedView, Seq<char>>(ParsedView::Run(st_sv)));
    assert(parse_options(sv, 0, no_options()) == parse_options(sv, 2, st_sv));
    let cv = seq!["--config"@, v];
    assert(cv[0] == "--config"@ && cv[1] == v);
    assert(cv[0] != "config"@ && cv[0] != "-h"@ && cv[0] != "--help"@ && cv[0] != "-V"@ && cv[0]
        != "--version"@ && cv[0] != "--disk-usage"@ && cv[0] != "--select"@);
    let st_cv = CliView { config: Some(v), ..no_options() };
    assert(parse_options(cv, 2, st_cv) == Ok::<ParsedView, Seq<char>>(ParsedView::Run(st_cv)));
    assert(parse_options(cv, 0, no_options()) == parse_options(cv, 2, st_cv));
    let s1 = seq!["--select"@];
    assert(s1[0] == "--select"@);
    let c1 = seq!["--config"@];
    assert(c1[0] == "--config"@);
    let ps = seq![p, "--select"@, v];
    assert(ps[0] == p && ps[1] == "--select"@);
    assert(p != "-h"@ && p != "--help"@ && p != "-V"@ && p != "--version"@ && p != "--disk-usage"@
        && p != "--select"@ && p != "--config"@);
    assert(!is_prefix("--"@, p)) by {
        if is_prefix("--"@, p) {
            assert(p.take(2)[0] == '-');
        }
    }
    let after_p = CliView { path: Some(p), ..no_options() };
    assert(parse_options(ps, 0, no_options()) == parse_options(ps, 1, after_p));
    let pq = seq![p, q];
    assert(pq[0] == p && pq[1] == q);
    assert(q != "-h"@ && q != "--help"@ && q != "-V"@ && q != "--version"@ && q != "--disk-usage"@
        && q != "--select"@ && q != "--config"@);
    assert(!is_prefix("--"@, q)) by {
        if is_prefix("--"@, q) {
            assert(q.take(2)[0] == '-');
        }
    }
    assert(parse_options(pq, 0, no_options()) == parse_options(pq, 1, after_p));
    let oo = seq![o];
    assert(oo[0] == o);
    assert(o != "-h"@ && o != "-V"@) by {
        assert(o[1] == '-');
    }
    assert(o != "config"@);
    assert(is_prefix("--"@, o)) by {
        assert(o.take(2) =~= seq!['-', '-']);
    }
}

/// `config` first is the config subcommand: alone it lists every key,
/// with one more argument it shows that key.
pub proof fn lemma_config_subcommand(key: Seq<char>)
    ensures
        spec_try_parse(seq!["config"@]) == Ok::<ParsedView, Seq<char>>(
            ParsedView::Run(CliView { command: Some(CommandView::Config { key: None }), ..no_options() }),
        ),
        spec_try_parse(seq!["config"@, key]) == Ok::<ParsedView, Seq<char>>(
            ParsedView::Run(
                CliView { command: Some(CommandView::Config { key: Some(key) }), ..no_options() },
            ),
        ),
{
    assert(seq!["config"@][0] == "config"@);
    assert(seq!["config"@, key][0] == "config"@);
    assert(seq!["config"@, key][1] == key);
}

fn is_option_like(a: &String) -> (r: bool)
    ensures
        r == is_prefix("--"@, a@),
{
    let cs = chars_of(a.as_str());
    proof {
        reveal_strlit("--");
        assert("--"@ =~= seq!['-', '-']);
    }
    let r = cs.len() >= 2 && cs[0] == '-' && cs[1] == '-';
    proof {
        if cs@.len() >= 2 {
            if r {
                assert(cs@.take(2) =~= seq!['-', '-']);
            } else {
                assert(cs@.take(2) != seq!['-', '-']) by {
                    if cs@[0] != '-' {
                        assert(cs@.take(2)[0] != seq!['-', '-'][0]);
                    } else {
                        assert(cs@.take(2)[1] != seq!['-', '-'][1]);
                    }
                }
            }
        }
    }
    r
}

impl Cli {
    /// Reads the command line (the program name left out).
    pub fn try_parse(args: Vec<String>) -> (r: Result<ParseOutcome, String>)
        ensures
            parse_result_view(r) == spec_try_parse(args@.map_values(|s: String| s@)),
    {
        let ghost av = args@.map_values(|s: String| s@);
        if args.len() > 0 && str_eq(args[0].as_str(), "config") {
            if args.len() > 2 {
                return Err(concat3("unexpected argument '", args[2].as_str(), "'"));
            }
            let key = if args.len() == 2 {
                Some(args[1].clone())
            } else {
                None
            };
            let cli = Cli {
                path: None,
                disk_usage: false,
                select: None,
                config: None,
                command: Some(Command::Config { key }),
            };
            proof {
                assert(parse_result_view(Ok(ParseOutcome::Run(cli))) == spec_try_parse(av));
            }
            return Ok(ParseOutcome::Run(cli));
        }
        let mut st = Cli { path: None, disk_usage: false, select: None, config: None, command: None };
        let mut i: usize = 0;
        while i < args.len()
            invariant
                av == args@.map_values(|s: String| s@),
                i <= args@.len(),
                st.command is None,
                spec_try_parse(av) == parse_options(av, i as int, st@),
            decreases args@.len() - i,
        {
            let a = &args[i];
            proof {
                assert(av[i as int] == a@);
            }
            if str_eq(a.as_str(), "-h") || str_eq(a.as_str(), "--help") {
                return Ok(ParseOutcome::Help);
            } else if str_eq(a.as_str(), "-V") || str_eq(a.as_str(), "--version") {
                return Ok(ParseOutcome::Version);
            } else if str_eq(a.as_str(), "--disk-usage") {
                st.disk_usage = true;
                i = i + 1;
            } else if str_eq(a.as_str(), "--select") {
                if i + 1 >= args.len() {
                    return Err("--select requires a value".to_owned());
                }
                if st.path.is_some() {
                    return Err(
                        "the argument '--select <FILE>' cannot be used with a PATH argument".to_owned(),
                    );
                }
                proof {
                    assert(av[i + 1] == args@[i + 1]@);
                }
                st.select = Some(args[i + 1].clone());
                i = i + 2;
            } else if str_eq(a.as_str(), "--config") {
                if i + 1 >= args.len() {
                    return Err("--config requires a value".to_owned());
                }
                proof {
                    assert(av[i + 1] == args@[i + 1]@);
                }
                st.config = Some(args[i + 1].clone());
                i = i + 2;
            } else if is_option_like(a) {
                return Err(concat3("unknown option '", a.as_str(), "'"));
            } else if st.select.is_some() {
                return Err(
                    "the argument '--select <FILE>' cannot be used with a PATH argument".to_owned(),
                );
            } else if st.path.is_some() {
                return Err(concat3("unexpected argument '", a.as_str(), "'"));
            } else {
                st.path = Some(a.clone());
                i = i + 1;
            }
        }
        Ok(ParseOutcome::Run(st))
    }
}

/// `path` with a leading `~` standing for the home directory: `~` alone is
/// the home directory, `~/rest` is `rest` inside it.
pub open spec fn spec_expand_tilde(path: Seq<char>, home: Seq<char>) -> Seq<char> {
    if path.len() >= 2 && path[0] == '~' && path[1] == '/' {
        path_join(home, path.skip(2))
    } else if path == seq!['~'] {
        home
    } else {
        path
    }
}

/// A directory that is known, or the root when it is not.
pub open spec fn known_or_root(dir: Option<Seq<char>>) -> Seq<char> {
    match dir {
        Some(d) => d,
        None => seq!['/'],
    }
}

/// A command-line path as an absolute path: the tilde expanded, a relative
/// path taken inside the working directory.
pub open spec fn spec_resolve_arg_path(path: Seq<char>, home: Seq<char>, cwd: Seq<char>) -> Seq<
    char,
> {
    let e = spec_expand_tilde(path, home);
    if is_absolute(e) {
        e
    } else {
        path_join(cwd, e)
    }
}

fn root_dir() -> (r: String)
    ensures
        r@ == seq!['/'],
{
    let r = "/".to_owned();
    proof {
        reveal_strlit("/");
    }
    r
}

/// A directory that is known, or the root when it is not.
pub fn known_dir_or_root(dir: Option<String>) -> (r: String)
    ensures
        r@ == known_or_root(opt_view(dir)),
{
    match dir {
        Some(d) => d,
        None => root_dir(),
    }
}

/// `path` with a leading `~` standing for the home directory.
pub fn expand_tilde(path: &str, home: &str) -> (r: String)
    ensures
        r@ == spec_expand_tilde(path@, home@),
{
    let p = chars_of(path);
    if p.len() >= 2 && p[0] == '~' && p[1] == '/' {
        let rest = crate::text::slice(&p, 2, p.len());
        assert(rest@ =~= p@.skip(2));
        return string_from_chars(&join(&chars_of(home), &rest));
    }
    if p.len() == 1 && p[0] == '~' {
        assert(p@ =~= seq!['~']);
        return string_from_chars(&chars_of(home));
    }
    assert(p@ != seq!['~']);
    string_from_chars(&p)
}

/// A command-line path as an absolute path (see `spec_resolve_arg_path`).
pub fn resolve_arg_path(path: &str, home: &str, cwd: &str) -> (r: String)
    ensures
        r@ == spec_resolve_arg_path(path@, home@, cwd@),
{
    let e = expand_tilde(path, home);
    let ec = chars_of(e.as_str());
    if ec.len() > 0 && ec[0] == '/' {
        e
    } else {
        string_from_chars(&join(&chars_of(cwd), &ec))
    }
}

/// Where the explorer starts.
#[derive(Debug)]
pub struct Startup {
    pub start_dir: String,
    pub select: Option<String>,
    pub disk_usage: bool,
    pub disk_usage_root: Option<String>,
    pub config: Option<String>,
}

/// How the path that decides the start must be looked up on disk.
#[derive(Debug)]
pub struct Probe {
    /// The resolved path.
    pub path: String,
    /// Whether a symbolic link is followed (it is for a path argument, not
    /// for `--select`).
    pub follow_links: bool,
}

pub open spec fn parent_or_self(p: Seq<char>) -> Seq<char> {
    match path_parent(p) {
        Some(q) => q,
        None => p,
    }
}

pub open spec fn not_found_message(p: Seq<char>) -> Seq<char> {
    "zex: path not found: "@ + p
}

fn parent_or_self_of(p: &String) -> (r: String)
    ensures
        r@ == parent_or_self(p@),
{
    match parent(&chars_of(p.as_str())) {
        Some(q) => string_from_chars(&q),
        None => p.clone(),
    }
}

impl Cli {
    /// The path that must be looked up on disk before the start can be
    /// decided: the `--select` target, else the path argument, each
    /// resolved; nothing when neither was given.
    pub fn probe(&self, home: Option<String>, cwd: Option<String>) -> (r: Option<Probe>)
        ensures
            self.select matches Some(s) ==> (r matches Some(p) && p.path@ == spec_resolve_arg_path(
                s@,
                known_or_root(opt_view(home)),
                known_or_root(opt_view(cwd)),
            ) && !p.follow_links),
            self.select is None ==> (self.path matches Some(s) ==> (r matches Some(p) && p.path@
                == spec_resolve_arg_path(
                s@,
                known_or_root(opt_view(home)),
                known_or_root(opt_view(cwd)),
            ) && p.follow_links)),
            self.select is None && self.path is None ==> r is None,
    {
        let home = known_dir_or_root(home);
        let cwd = known_dir_or_root(cwd);
        match &self.select {
            Some(s) => Some(
                Probe {
                    path: resolve_arg_path(s.as_str(), home.as_str(), cwd.as_str()),
                    follow_links: false,
                },
            ),
            None => match &self.path {
                Some(s) => Some(
                    Probe {
                        path: resolve_arg_path(s.as_str(), home.as_str(), cwd.as_str()),
                        follow_links: true,
                    },
                ),
                None => None,
            },
        }
    }

    /// Decides where the explorer starts, given what looking up the probed
    /// path found: `None` when nothing is there, else whether it is a
    /// directory. A `--select` target opens its parent with it selected; a
    /// directory argument opens itself (and roots the disk usage view); a
    /// file argument opens its parent with it selected; with neither, the
    /// default start directory opens.
    pub fn resolve(
        self,
        default_start_dir: String,
        home: Option<String>,
        cwd: Option<String>,
        found: Option<bool>,
    ) -> (r: Result<Startup, String>)
        ensures
            ({
                let h = known_or_root(opt_view(home));
                let c = known_or_root(opt_view(cwd));
                match self.select {
                    Some(s) => {
                        let p = spec_resolve_arg_path(s@, h, c);
                        match found {
                            None => r matches Err(e) && e@ == not_found_message(p),
                            Some(_) => r matches Ok(st) && st.start_dir@ == parent_or_self(p)
                                && opt_view(st.select) == Some(p) && st.disk_usage_root is None,
                        }
                    },
                    None => match self.path {
                        Some(s) => {
                            let p = spec_resolve_arg_path(s@, h, c);
                            match found {
                                None => r matches Err(e) && e@ == not_found_message(p),
                                Some(true) => r matches Ok(st) && st.start_dir@ == p && st.select is None
                                    && opt_view(st.disk_usage_root) == Some(p),
                                Some(false) => r matches Ok(st) && st.start_dir@ == parent_or_self(p)
                                    && opt_view(st.select) == Some(p) && st.disk_usage_root is None,
                            }
                        },
                        None => r matches Ok(st) && st.start_dir@ == default_start_dir@
                            && st.select is None && st.disk_usage_root is None,
                    },
                }
            }),
            r matches Ok(st) ==> st.disk_usage == self.disk_usage && opt_view(st.config) == opt_view(
                self.config,
            ),
    {
        proof {
            reveal_strlit("");
        }
        let home = known_dir_or_root(home);
        let cwd = known_dir_or_root(cwd);
        let Cli { path, disk_usage, select, config, command: _ } = self;
        let (start_dir, select, explicit_dir) = match select {
            Some(s) => {
                let resolved = resolve_arg_path(s.as_str(), home.as_str(), cwd.as_str());
                if found.is_none() {
                    return Err(concat3("zex: path not found: ", resolved.as_str(), ""));
                }
                (parent_or_self_of(&resolved), Some(resolved), None)
            },
            None => match path {
                Some(s) => {
                    let resolved = resolve_arg_path(s.as_str(), home.as_str(), cwd.as_str());
                    match found {
                        None => {
                            return Err(concat3("zex: path not found: ", resolved.as_str(), ""));
                        },
                        Some(true) => (resolved.clone(), None, Some(resolved)),
                        Some(false) => (parent_or_self_of(&resolved), Some(resolved), None),
                    }
                },
                None => (default_start_dir, None, None),
            },
        };
        Ok(Startup { start_dir, select, disk_usage, disk_usage_root: explicit_dir, config })
    }
}

} // verus!
