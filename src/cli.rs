//! The command line: turns argument tokens into a search configuration, a
//! request for help, or an error.
use crate::number::DecimalInt;
use crate::pattern::{regex_compile_error, Pattern};
use crate::text::{is_dashed, same_text, starts_with_dash};
use vstd::prelude::*;

verus! {

pub const USAGE: &'static str = "USAGE: toa-find [options] <pattern> -- [path]..

Kawaii Toa shall find all your files recursively.

Arguments:
  <pattern> - Regular expression to filter entries by.
  [path]..  - Directory to search. By default current directory is searched.

Options:
  -h, --help         - Prints this message.
  -s, --sym          - Follow symbolic links. By default they are not followed.
      --minhop <num> - Minimum number of hops before starting to look.
      --hop <num>    - Specifies depth of recursion.
  -q, --quiet        - Print only results. Errors are ignored.

By default every type of file system entry is printed.
Below flags can be used to disable defaults and print only particular types of entries.

Entries filters:
  -d, --dir          - Prints directories.
  -f, --file         - Prints files.
";

// ----- messages -----

pub open spec fn invalid_number_msg(num: Seq<char>, opt: Seq<char>) -> Seq<char> {
    "Invalid number "@ + num + " is supplied for option "@ + opt
}

pub open spec fn missing_value_msg(opt: Seq<char>) -> Seq<char> {
    "Missing value for option "@ + opt
}

pub open spec fn invalid_option_msg(opt: Seq<char>) -> Seq<char> {
    "Invalid option '"@ + opt + "'"@
}

pub open spec fn second_pattern_msg() -> Seq<char> {
    "Cannot use more than one pattern for now. Gomen, onii-chan :("@
}

pub open spec fn compile_failed_msg(detail: Seq<char>) -> Seq<char> {
    "Couldn't compile pattern. "@ + detail
}

pub open spec fn missing_pattern_msg() -> Seq<char> {
    "Search pattern is missing"@
}

/// How an error is shown: the usage text alone for an empty message, else
/// the message after `ERROR: `, a blank line, then the usage text.
pub open spec fn error_display(msg: Seq<char>) -> Seq<char> {
    if msg.len() == 0 {
        USAGE@
    } else {
        "ERROR: "@ + msg + "\n\n"@ + USAGE@
    }
}

fn invalid_number_message(num: &str, opt: &str) -> (r: String)
    ensures
        r@ == invalid_number_msg(num@, opt@),
{
    let mut s = String::from_str("Invalid number ");
    s.append(num);
    s.append(" is supplied for option ");
    s.append(opt);
    s
}

fn missing_value_message(opt: &str) -> (r: String)
    ensures
        r@ == missing_value_msg(opt@),
{
    let mut s = String::from_str("Missing value for option ");
    s.append(opt);
    s
}

/// A failure to read the command line.
#[derive(Debug)]
pub struct ParseError(pub String);

impl ParseError {
    /// Short description of the kind of error.
    pub fn description(&self) -> (r: &str)
        ensures
            r@ == "Wrong arguments"@,
    {
        "Wrong arguments"
    }

    /// The error as it is shown to the user.
    pub fn to_string(&self) -> (r: String)
        ensures
            r@ == error_display(self.0@),
    {
        if self.0.as_str().unicode_len() == 0 {
            String::from_str(USAGE)
        } else {
            let mut s = String::from_str("ERROR: ");
            s.append(self.0.as_str());
            s.append("\n\n");
            s.append(USAGE);
            s
        }
    }
}

/// Reads the value of option `opt_name` from `arg`, the token after it.
pub fn parse_next_int<T: DecimalInt>(arg: Option<&str>, opt_name: &str) -> (r: Result<T, ParseError>)
    ensures
        match arg {
            None => r matches Err(e) && e.0@ == missing_value_msg(opt_name@),
            Some(s) => match T::spec_from_decimal(s@) {
                Some(v) => r matches Ok(w) && w == v,
                None => r matches Err(e) && e.0@ == invalid_number_msg(s@, opt_name@),
            },
        },
{
    match arg {
        Some(num) => match T::from_decimal(num) {
            Some(v) => Ok(v),
            None => Err(ParseError(invalid_number_message(num, opt_name))),
        },
        None => Err(ParseError(missing_value_message(opt_name))),
    }
}


/// Which kinds of entries are shown, and how the walk behaves.
#[derive(Clone, Copy, Debug, PartialEq, Eq, Structural)]
pub struct Flags {
    /// Whether to print directories.
    pub dir: bool,
    /// Whether to print files.
    pub file: bool,
    /// Whether to follow symbolic links.
    pub sym: bool,
    /// Whether to keep errors to itself.
    pub quiet: bool,
}

impl Default for Flags {
    fn default() -> (r: Flags)
        ensures
            r == (Flags { dir: false, file: false, sym: false, quiet: false }),
    {
        Flags { dir: false, file: false, sym: false, quiet: false }
    }
}

/// Options that carry a value.
#[derive(Clone, Copy, Debug)]
pub struct Options {
    /// Depth range `(min, max)`, both inclusive; the root is at depth 0.
    pub hop: (usize, usize),
}

impl Default for Options {
    fn default() -> (r: Options)
        ensures
            r.hop == (0usize, usize::MAX),
    {
        Options { hop: (0, usize::MAX) }
    }
}

/// A search configuration read from the command line.
pub struct Parser {
    pub flags: Flags,
    pub opts: Options,
    pub pattern: Pattern,
    pub paths: Vec<String>,
}

// ----- the model of reading the tokens -----

/// What has been read so far.
pub ghost struct Scan {
    pub flags: Flags,
    pub hop: (usize, usize),
    pub pattern: Option<Seq<char>>,
    pub paths: Seq<Seq<char>>,
}

/// How reading the tokens ends.
pub ghost enum Parsed {
    Help,
    Fail(Seq<char>),
    Config(Scan),
}

pub open spec fn is_help_token(t: Seq<char>) -> bool {
    t == "-h"@ || t == "--help"@
}

pub open spec fn is_dir_token(t: Seq<char>) -> bool {
    t == "-d"@ || t == "--dir"@
}

pub open spec fn is_file_token(t: Seq<char>) -> bool {
    t == "-f"@ || t == "--file"@
}

pub open spec fn is_sym_token(t: Seq<char>) -> bool {
    t == "-s"@ || t == "--sym"@
}

pub open spec fn is_quiet_token(t: Seq<char>) -> bool {
    t == "-q"@ || t == "--quiet"@
}

pub open spec fn initial_scan() -> Scan {
    Scan {
        flags: Flags { dir: false, file: false, sym: false, quiet: false },
        hop: (0, usize::MAX),
        pattern: None,
        paths: Seq::empty(),
    }
}

/// The outcome of reading one token: go on from position `next` in a new
/// state, or stop with a result.
pub ghost enum Step {
    Next(nat, Scan),
    Stop(Parsed),
}

/// Reads the token at position `i` (and its value, for an option that takes
/// one) in the state `st`.
pub open spec fn step(toks: Seq<Seq<char>>, i: nat, st: Scan) -> Step {
    let t = toks[i as int];
    if is_dashed(t) {
        if is_help_token(t) {
            Step::Stop(Parsed::Help)
        } else if is_dir_token(t) {
            Step::Next(i + 1, Scan { flags: Flags { dir: true, ..st.flags }, ..st })
        } else if is_file_token(t) {
            Step::Next(i + 1, Scan { flags: Flags { file: true, ..st.flags }, ..st })
        } else if is_sym_token(t) {
            Step::Next(i + 1, Scan { flags: Flags { sym: true, ..st.flags }, ..st })
        } else if is_quiet_token(t) {
            Step::Next(i + 1, Scan { flags: Flags { quiet: true, ..st.flags }, ..st })
        } else if t == "--minhop"@ || t == "--hop"@ {
            if i + 1 < toks.len() {
                let v = toks[i as int + 1];
                match crate::number::usize_of(v) {
                    Some(n) => if t == "--minhop"@ {
                        Step::Next(i + 2, Scan { hop: (n, st.hop.1), ..st })
                    } else {
                        Step::Next(i + 2, Scan { hop: (st.hop.0, n), ..st })
                    },
                    None => Step::Stop(Parsed::Fail(invalid_number_msg(v, t))),
                }
            } else {
                Step::Stop(Parsed::Fail(missing_value_msg(t)))
            }
        } else if t == "--"@ {
            Step::Stop(
                Parsed::Config(Scan { paths: st.paths + toks.subrange(i as int + 1, toks.len() as int), ..st }),
            )
        } else {
            Step::Stop(Parsed::Fail(invalid_option_msg(t.drop_first())))
        }
    } else if st.pattern is Some {
        Step::Stop(Parsed::Fail(second_pattern_msg()))
    } else {
        match regex_compile_error(t) {
            None => Step::Next(i + 1, Scan { pattern: Some(t), ..st }),
            Some(e) => Step::Stop(Parsed::Fail(compile_failed_msg(e))),
        }
    }
}

/// Reads `toks` from position `i` on, from the state `st`.
pub open spec fn scan(toks: Seq<Seq<char>>, i: nat, st: Scan) -> Parsed
    decreases toks.len() - i,
{
    if i >= toks.len() {
        Parsed::Config(st)
    } else {
        match step(toks, i, st) {
            Step::Next(j, next) => if i < j <= toks.len() {
                scan(toks, j, next)
            } else {
                Parsed::Config(next)
            },
            Step::Stop(end) => end,
        }
    }
}

/// The defaults applied once all tokens are read: no type filter means every
/// type, no path means the current directory, and a maximum depth below the
/// minimum is raised to it.
pub open spec fn finish(st: Scan) -> Scan {
    Scan {
        hop: if st.hop.1 < st.hop.0 {
            (st.hop.0, st.hop.0)
        } else {
            st.hop
        },
        flags: if !st.flags.dir && !st.flags.file {
            Flags { dir: true, file: true, ..st.flags }
        } else {
            st.flags
        },
        paths: if st.paths.len() == 0 {
            seq![ "."@ ]
        } else {
            st.paths
        },
        ..st
    }
}

/// What the command line `toks` asks for.
pub open spec fn parse_tokens(toks: Seq<Seq<char>>) -> Parsed {
    match scan(toks, 0, initial_scan()) {
        Parsed::Config(st) => if st.pattern is None {
            Parsed::Fail(missing_pattern_msg())
        } else {
            Parsed::Config(finish(st))
        },
        other => other,
    }
}

pub open spec fn token_views(args: Seq<&str>) -> Seq<Seq<char>> {
    args.map_values(|a: &str| a@)
}

pub open spec fn string_views(v: Seq<String>) -> Seq<Seq<char>> {
    v.map_values(|s: String| s@)
}

pub open spec fn pattern_view(p: Option<Pattern>) -> Option<Seq<char>> {
    match p {
        Some(q) => Some(q@),
        None => None,
    }
}

impl Parser {
    /// The configuration as a `Scan`.
    pub open spec fn model(&self) -> Scan {
        Scan {
            flags: self.flags,
            hop: self.opts.hop,
            pattern: Some(self.pattern@),
            paths: string_views(self.paths@),
        }
    }

    /// Reads the command line `args` (without the program's name). `Ok(None)`
    /// is a request for help.
    pub fn from_args(args: &[&str]) -> (r: Result<Option<Parser>, ParseError>)
        ensures
            match r {
                Ok(None) => parse_tokens(token_views(args@)) is Help,
                Ok(Some(p)) => parse_tokens(token_views(args@)) == Parsed::Config(p.model()),
                Err(e) => parse_tokens(token_views(args@)) == Parsed::Fail(e.0@),
            },
            r matches Ok(Some(p)) ==> p.opts.hop.0 <= p.opts.hop.1 && (p.flags.dir || p.flags.file)
                && p.paths@.len() >= 1,
    {
        let ghost toks = token_views(args@);
        let mut flags = Flags::default();
        let mut options = Options::default();
        let mut pattern: Option<Pattern> = None;
        let mut paths: Vec<String> = Vec::new();
        let n = args.len();
        let mut i: usize = 0;
        assert(string_views(paths@) =~= Seq::<Seq<char>>::empty());
        while i < n
            invariant
                i <= n,
                n == args@.len(),
                toks == token_views(args@),
                scan(toks, i as nat, Scan { flags, hop: options.hop, pattern: pattern_view(pattern), paths: string_views(paths@) })
                    == scan(toks, 0, initial_scan()),
            decreases n - i,
        {
            let arg: &str = args[i];
            assert(arg@ == toks[i as int]);
            if starts_with_dash(arg) {
                if same_text(arg, "-h") || same_text(arg, "--help") {
                    return Ok(None);
                } else if same_text(arg, "-d") || same_text(arg, "--dir") {
                    flags.dir = true;
                    i = i + 1;
                } else if same_text(arg, "-f") || same_text(arg, "--file") {
                    flags.file = true;
                    i = i + 1;
                } else if same_text(arg, "-s") || same_text(arg, "--sym") {
                    flags.sym = true;
                    i = i + 1;
                } else if same_text(arg, "-q") || same_text(arg, "--quiet") {
                    flags.quiet = true;
                    i = i + 1;
                } else if same_text(arg, "--minhop") || same_text(arg, "--hop") {
                    let next: Option<&str> = if i + 1 < n { Some(args[i + 1]) } else { None };
                    match parse_next_int::<usize>(next, arg) {
                        Ok(num) => {
                            if same_text(arg, "--minhop") {
                                options.hop = (num, options.hop.1);
                            } else {
                                options.hop = (options.hop.0, num);
                            }
                            i = i + 2;
                        },
                        Err(error) => return Err(error),
                    }
                } else if same_text(arg, "--") {
                    let ghost before = string_views(paths@);
                    let mut j: usize = i + 1;
                    while j < n
                        invariant
                            i < j <= n,
                            n == args@.len(),
                            toks == token_views(args@),
                            string_views(paths@) == before + toks.subrange(i + 1, j as int),
                        decreases n - j,
                    {
                        let path = args[j].to_owned();
                        assert(path@ == toks[j as int]);
                        let ghost prev = paths@;
                        paths.push(path);
                        assert(paths@ == prev.push(path));
                        assert(string_views(paths@) =~= string_views(prev).push(path@));
                        assert(toks.subrange(i + 1, j + 1) =~= toks.subrange(i + 1, j as int).push(toks[j as int]));
                        assert(string_views(paths@) =~= before + toks.subrange(i + 1, j + 1));
                        j = j + 1;
                    }
                    i = n;
                } else {
                    let opt = arg.substring_char(1, arg.unicode_len());
                    assert(opt@ =~= arg@.drop_first());
                    let mut msg = String::from_str("Invalid option '");
                    msg.append(opt);
                    msg.append("'");
                    return Err(ParseError(msg));
                }
            } else {
                if pattern.is_some() {
                    return Err(ParseError(String::from_str("Cannot use more than one pattern for now. Gomen, onii-chan :(")));
                }
                match Pattern::new(arg) {
                    Ok(p) => {
                        pattern = Some(p);
                        i = i + 1;
                    },
                    Err(detail) => {
                        let mut msg = String::from_str("Couldn't compile pattern. ");
                        msg.append(detail.as_str());
                        return Err(ParseError(msg));
                    },
                }
            }
        }
        let pattern = match pattern {
            Some(regex) => regex,
            None => return Err(ParseError(String::from_str("Search pattern is missing"))),
        };
        if options.hop.1 < options.hop.0 {
            options.hop = (options.hop.0, options.hop.0);
        }
        if !flags.dir && !flags.file {
            flags.dir = true;
            flags.file = true;
        }
        if paths.len() == 0 {
            paths.push(String::from_str("."));
            assert(string_views(paths@) =~= seq![ "."@ ]);
        }
        Ok(Some(Parser { flags, opts: options, pattern, paths }))
    }

    /// The help text.
    pub fn usage() -> (r: &'static str)
        ensures
            r@ == USAGE@,
    {
        USAGE
    }
}

} // verus!
