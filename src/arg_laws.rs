//! Properties of reading the command line, proved over the model in `cli`.
//!
//! A token is at the top level when it stands before the first `--` and is
//! not the value of `--minhop` or `--hop`.
use crate::cli::{
    initial_scan, invalid_number_msg, is_dir_token, is_file_token, is_help_token, is_quiet_token,
    is_sym_token, missing_pattern_msg, missing_value_msg, parse_tokens, scan, second_pattern_msg,
    step, Flags, Parsed, Scan, Step,
};
use crate::number::{is_digit, usize_of, without_plus};
use crate::pattern::regex_compile_error;
use crate::text::is_dashed;
use vstd::prelude::*;

verus! {

/// A flag that takes no value and does not stop the reading: `-d`, `-f`,
/// `-s`, `-q` or their long forms.
pub open spec fn is_switch(t: Seq<char>) -> bool {
    is_dir_token(t) || is_file_token(t) || is_sym_token(t) || is_quiet_token(t)
}

pub open spec fn is_depth_option(t: Seq<char>) -> bool {
    t == "--minhop"@ || t == "--hop"@
}

/// A run of known options, other than help: switches, and depth options each
/// followed by an unsigned number.
pub open spec fn is_option_run(s: Seq<Seq<char>>) -> bool
    decreases s.len(),
{
    if s.len() == 0 {
        true
    } else if is_switch(s[0]) {
        is_option_run(s.drop_first())
    } else if is_depth_option(s[0]) && s.len() >= 2 && usize_of(s[1]) is Some {
        is_option_run(s.subrange(2, s.len() as int))
    } else {
        false
    }
}

/// Either nothing, or `--` and whatever follows it.
pub open spec fn is_path_tail(s: Seq<Seq<char>>) -> bool {
    s.len() == 0 || s[0] == "--"@
}

/// The paths that a path tail supplies, with the default.
pub open spec fn tail_paths(s: Seq<Seq<char>>) -> Seq<Seq<char>> {
    if s.len() <= 1 {
        seq!["."@]
    } else {
        s.drop_first()
    }
}

pub open spec fn no_separator(s: Seq<Seq<char>>) -> bool {
    forall|k: int| 0 <= k < s.len() ==> #[trigger] s[k] != "--"@
}

proof fn lemma_literals()
    ensures
        "-h"@ == seq!['-', 'h'],
        "--help"@ == seq!['-', '-', 'h', 'e', 'l', 'p'],
        "-d"@ == seq!['-', 'd'],
        "--dir"@ == seq!['-', '-', 'd', 'i', 'r'],
        "-f"@ == seq!['-', 'f'],
        "--file"@ == seq!['-', '-', 'f', 'i', 'l', 'e'],
        "-s"@ == seq!['-', 's'],
        "--sym"@ == seq!['-', '-', 's', 'y', 'm'],
        "-q"@ == seq!['-', 'q'],
        "--quiet"@ == seq!['-', '-', 'q', 'u', 'i', 'e', 't'],
        "--minhop"@ == seq!['-', '-', 'm', 'i', 'n', 'h', 'o', 'p'],
        "--hop"@ == seq!['-', '-', 'h', 'o', 'p'],
        "--"@ == seq!['-', '-'],
{
    reveal_strlit("-h");
    reveal_strlit("--help");
    reveal_strlit("-d");
    reveal_strlit("--dir");
    reveal_strlit("-f");
    reveal_strlit("--file");
    reveal_strlit("-s");
    reveal_strlit("--sym");
    reveal_strlit("-q");
    reveal_strlit("--quiet");
    reveal_strlit("--minhop");
    reveal_strlit("--hop");
    reveal_strlit("--");
    assert("-h"@ =~= seq!['-', 'h']);
    assert("--help"@ =~= seq!['-', '-', 'h', 'e', 'l', 'p']);
    assert("-d"@ =~= seq!['-', 'd']);
    assert("--dir"@ =~= seq!['-', '-', 'd', 'i', 'r']);
    assert("-f"@ =~= seq!['-', 'f']);
    assert("--file"@ =~= seq!['-', '-', 'f', 'i', 'l', 'e']);
    assert("-s"@ =~= seq!['-', 's']);
    assert("--sym"@ =~= seq!['-', '-', 's', 'y', 'm']);
    assert("-q"@ =~= seq!['-', 'q']);
    assert("--quiet"@ =~= seq!['-', '-', 'q', 'u', 'i', 'e', 't']);
    assert("--minhop"@ =~= seq!['-', '-', 'm', 'i', 'n', 'h', 'o', 'p']);
    assert("--hop"@ =~= seq!['-', '-', 'h', 'o', 'p']);
    assert("--"@ =~= seq!['-', '-']);
}

/// A switch is an option that is neither help, nor one with a value, nor `--`.
proof fn lemma_switch_token(t: Seq<char>)
    requires
        is_switch(t),
    ensures
        is_dashed(t),
        !is_help_token(t),
        t != "--minhop"@,
        t != "--hop"@,
        t != "--"@,
{
    lemma_literals();
    assert(t[0] == '-');
    if t.len() == 2 {
        assert(t[1] != 'h' && t[1] != '-');
    } else {
        assert(t[2] != 'h');
    }
}

/// `--` is an option that is neither help, nor a switch, nor one with a value.
proof fn lemma_separator_token()
    ensures
        is_dashed("--"@),
        !is_help_token("--"@),
        !is_switch("--"@),
        "--"@ != "--minhop"@,
        "--"@ != "--hop"@,
{
    lemma_literals();
    let t = "--"@;
    assert(t[1] == '-');
    assert("-h"@[1] == 'h');
    assert("-d"@[1] == 'd');
    assert("-f"@[1] == 'f');
    assert("-s"@[1] == 's');
    assert("-q"@[1] == 'q');
    assert(t != "-h"@);
    assert(t != "-d"@);
    assert(t != "-f"@);
    assert(t != "-s"@);
    assert(t != "-q"@);
    assert(t.len() == 2);
    assert(!is_help_token(t));
}

/// A token that starts with `-` is no number.
proof fn lemma_dashed_no_number(v: Seq<char>)
    requires
        is_dashed(v),
    ensures
        usize_of(v) is None,
{
    assert(without_plus(v) == v);
    assert(!is_digit(v[0]));
}

/// `--minhop` and `--hop` are options that are neither help, nor switches,
/// nor `--`.
proof fn lemma_value_option_token(t: Seq<char>)
    requires
        is_depth_option(t),
    ensures
        is_dashed(t),
        !is_help_token(t),
        !is_switch(t),
        t != "--"@,
{
    lemma_literals();
    assert(t[0] == '-');
    assert("-d"@.len() == 2 && "-f"@.len() == 2 && "-s"@.len() == 2 && "-q"@.len() == 2);
    assert("--file"@.len() == 6 && "--quiet"@.len() == 7 && "--help"@.len() == 6);
    assert("--dir"@.len() == 5 && "--sym"@.len() == 5 && "--"@.len() == 2);
    if t == "--hop"@ {
        assert(t[2] == 'h');
        assert("--dir"@[2] == 'd');
        assert("--sym"@[2] == 's');
        assert(t != "--dir"@);
        assert(t != "--sym"@);
    }
}

/// `-f` and `--file` are not `-d` or `--dir`.
proof fn lemma_file_token(t: Seq<char>)
    requires
        is_file_token(t),
    ensures
        !is_dir_token(t),
{
    lemma_literals();
    if t.len() == 2 {
        assert(t[1] == 'f');
        assert("-d"@[1] == 'd');
    }
}

/// `-d` and `--dir` are not `-f` or `--file`.
proof fn lemma_type_tokens_differ(t: Seq<char>)
    ensures
        is_dir_token(t) ==> !is_file_token(t),
{
    if is_file_token(t) {
        lemma_file_token(t);
    }
}

/// Reading a run of known options leaves the pattern and the paths as they
/// were.
proof fn lemma_option_run(toks: Seq<Seq<char>>, i: nat, run: Seq<Seq<char>>, st: Scan) -> (st2: Scan)
    requires
        i + run.len() <= toks.len(),
        toks.subrange(i as int, i + run.len() as int) == run,
        is_option_run(run),
    ensures
        scan(toks, i, st) == scan(toks, i + run.len(), st2),
        st2.pattern == st.pattern,
        st2.paths == st.paths,
    decreases run.len(),
{
    if run.len() == 0 {
        st
    } else {
        let t = run[0];
        assert(toks[i as int] == t);
        if is_switch(t) {
            lemma_switch_token(t);
            let next = step(toks, i, st)->Next_1;
            assert(toks.subrange(i as int + 1, i + run.len() as int) =~= run.drop_first());
            lemma_option_run(toks, i + 1, run.drop_first(), next)
        } else {
            lemma_value_option_token(t);
            assert(toks[i as int + 1] == run[1]);
            let next = step(toks, i, st)->Next_1;
            assert(toks.subrange(i as int + 2, i + run.len() as int) =~= run.subrange(2, run.len() as int));
            lemma_option_run(toks, i + 2, run.subrange(2, run.len() as int), next)
        }
    }
}

/// Reading a prefix with no `--` in it, then more tokens: where the prefix
/// alone reads to the end, the whole goes on from there in the same state;
/// where it asks for help, so does the whole; where it fails, so does the
/// whole when what follows is empty or starts with `-`.
proof fn lemma_prefix(pre: Seq<Seq<char>>, suf: Seq<Seq<char>>, i: nat, st: Scan)
    requires
        i <= pre.len(),
        no_separator(pre),
    ensures
        scan(pre, i, st) matches Parsed::Config(s) ==> scan(pre + suf, i, st) == scan(pre + suf, pre.len(), s),
        scan(pre, i, st) is Help ==> scan(pre + suf, i, st) is Help,
        scan(pre, i, st) is Fail && (suf.len() == 0 || is_dashed(suf[0])) ==> scan(pre + suf, i, st) is Fail,
    decreases pre.len() - i,
{
    let toks = pre + suf;
    if i < pre.len() {
        assert(toks[i as int] == pre[i as int]);
        assert(pre[i as int] != "--"@);
        if i + 1 < pre.len() {
            assert(toks[i as int + 1] == pre[i as int + 1]);
        } else if suf.len() > 0 && is_dashed(suf[0]) {
            assert(toks[i as int + 1] == suf[0]);
            lemma_dashed_no_number(suf[0]);
        }
        if let Step::Next(j, next) = step(pre, i, st) {
            assert(step(toks, i, st) == step(pre, i, st));
            lemma_prefix(pre, suf, j, next);
        }
    }
}

/// Without a given type flag among the tokens, reading them leaves that flag
/// as it was.
proof fn lemma_keeps_type_flag(toks: Seq<Seq<char>>, i: nat, st: Scan, dir: bool)
    requires
        forall|k: int| i <= k < toks.len() ==> !is_type_token(#[trigger] toks[k], dir),
    ensures
        scan(toks, i, st) matches Parsed::Config(s2) ==> type_flag(s2.flags, dir) == type_flag(st.flags, dir),
    decreases toks.len() - i,
{
    if i < toks.len() {
        assert(!is_type_token(toks[i as int], dir));
        if let Step::Next(j, next) = step(toks, i, st) {
            lemma_keeps_type_flag(toks, j, next, dir);
        }
    }
}

/// Once a type flag is set, it stays set.
proof fn lemma_type_flag_stays(toks: Seq<Seq<char>>, i: nat, st: Scan, dir: bool)
    requires
        type_flag(st.flags, dir),
    ensures
        scan(toks, i, st) matches Parsed::Config(s2) ==> type_flag(s2.flags, dir),
    decreases toks.len() - i,
{
    if i < toks.len() {
        if let Step::Next(j, next) = step(toks, i, st) {
            lemma_type_flag_stays(toks, j, next, dir);
        }
    }
}

/// A type flag at position `k`, with no `--` before it, is read as the flag.
proof fn lemma_type_token_sets(toks: Seq<Seq<char>>, i: nat, st: Scan, k: int, dir: bool)
    requires
        i <= k < toks.len(),
        is_type_token(toks[k], dir),
        forall|j: int| i <= j < k ==> #[trigger] toks[j] != "--"@,
    ensures
        scan(toks, i, st) matches Parsed::Config(s2) ==> type_flag(s2.flags, dir),
    decreases toks.len() - i,
{
    let t = toks[i as int];
    lemma_switch_token(toks[k]);
    lemma_type_tokens_differ(toks[k]);
    if i == k {
        let next = step(toks, i, st)->Next_1;
        lemma_type_flag_stays(toks, i + 1, next, dir);
    } else {
        if i + 1 == k && is_dashed(t) && is_depth_option(t) {
            lemma_dashed_no_number(toks[k]);
        }
        if let Step::Next(j, next) = step(toks, i, st) {
            if type_flag(next.flags, dir) {
                lemma_type_flag_stays(toks, j, next, dir);
            } else {
                lemma_type_token_sets(toks, j, next, k, dir);
            }
        }
    }
}

pub open spec fn is_type_token(t: Seq<char>, dir: bool) -> bool {
    if dir {
        is_dir_token(t)
    } else {
        is_file_token(t)
    }
}

pub open spec fn type_flag(f: Flags, dir: bool) -> bool {
    if dir {
        f.dir
    } else {
        f.file
    }
}

/// Known options, one pattern that compiles, known options, then nothing or
/// `--` and paths: the reading succeeds, with that pattern and those paths.
pub proof fn single_pattern_is_read(
    pre: Seq<Seq<char>>,
    p: Seq<char>,
    post: Seq<Seq<char>>,
    tail: Seq<Seq<char>>,
)
    requires
        is_option_run(pre),
        is_option_run(post),
        !is_dashed(p),
        regex_compile_error(p) is None,
        is_path_tail(tail),
    ensures
        parse_tokens(pre + seq![p] + post + tail) matches Parsed::Config(c) && c.pattern == Some(p)
            && c.paths == tail_paths(tail),
{
    let toks = pre + seq![p] + post + tail;
    let n = pre.len();
    let m = post.len();
    assert(toks.subrange(0, n as int) =~= pre);
    let st = lemma_option_run(toks, 0, pre, initial_scan());
    assert(toks[n as int] == p);
    let st1 = step(toks, n, st)->Next_1;
    assert(toks.subrange(n as int + 1, n + 1 + m as int) =~= post);
    let st2 = lemma_option_run(toks, n + 1, post, st1);
    if tail.len() > 0 {
        lemma_separator_token();
        assert(toks[(n + 1 + m) as int] == "--"@);
        assert(toks.subrange((n + 1 + m + 1) as int, toks.len() as int) =~= tail.drop_first());
        if tail.len() == 1 {
            assert(tail.drop_first().len() == 0);
        }
    }
}

/// Two patterns at the top level, with known options before and between
/// them: the reading fails, and with the message that only one pattern is
/// taken when the first compiles.
pub proof fn second_pattern_fails(
    pre: Seq<Seq<char>>,
    first: Seq<char>,
    mid: Seq<Seq<char>>,
    second: Seq<char>,
    rest: Seq<Seq<char>>,
)
    requires
        is_option_run(pre),
        is_option_run(mid),
        !is_dashed(first),
        !is_dashed(second),
    ensures
        parse_tokens(pre + seq![first] + mid + seq![second] + rest) is Fail,
        regex_compile_error(first) is None ==> parse_tokens(pre + seq![first] + mid + seq![second] + rest)
            == Parsed::Fail(second_pattern_msg()),
{
    let toks = pre + seq![first] + mid + seq![second] + rest;
    let n = pre.len();
    let m = mid.len();
    assert(toks.subrange(0, n as int) =~= pre);
    let st = lemma_option_run(toks, 0, pre, initial_scan());
    assert(toks[n as int] == first);
    if regex_compile_error(first) is None {
        let st1 = step(toks, n, st)->Next_1;
        assert(toks.subrange(n as int + 1, n + 1 + m as int) =~= mid);
        let st2 = lemma_option_run(toks, n + 1, mid, st1);
        assert(toks[(n + 1 + m) as int] == second);
    }
}

/// Known options and then nothing or `--` and paths, with no pattern: the
/// reading fails with the message that the pattern is missing.
pub proof fn missing_pattern_fails(pre: Seq<Seq<char>>, tail: Seq<Seq<char>>)
    requires
        is_option_run(pre),
        is_path_tail(tail),
    ensures
        parse_tokens(pre + tail) == Parsed::Fail(missing_pattern_msg()),
{
    let toks = pre + tail;
    assert(toks.subrange(0, pre.len() as int) =~= pre);
    let st = lemma_option_run(toks, 0, pre, initial_scan());
    if tail.len() > 0 {
        lemma_separator_token();
        assert(toks[pre.len() as int] == "--"@);
    }
}

/// With neither `-d` nor `-f` (nor their long forms) at the top level, a
/// successful reading shows both directories and files.
pub proof fn no_type_filter_shows_all(pre: Seq<Seq<char>>, tail: Seq<Seq<char>>)
    requires
        no_separator(pre),
        forall|k: int| 0 <= k < pre.len() ==> !is_dir_token(#[trigger] pre[k]) && !is_file_token(pre[k]),
        is_path_tail(tail),
    ensures
        parse_tokens(pre + tail) matches Parsed::Config(c) ==> c.flags.dir && c.flags.file,
{
    lemma_top_level(pre, tail);
    assert forall|k: int| 0 <= k < pre.len() implies !is_type_token(#[trigger] pre[k], true) by {}
    assert forall|k: int| 0 <= k < pre.len() implies !is_type_token(#[trigger] pre[k], false) by {}
    lemma_keeps_type_flag(pre, 0, initial_scan(), true);
    lemma_keeps_type_flag(pre, 0, initial_scan(), false);
}

/// With one type flag at the top level and not the other, a successful
/// reading shows that type alone: `-f` without `-d` shows files only, `-d`
/// without `-f` directories only.
pub proof fn one_type_filter_shows_one(pre: Seq<Seq<char>>, tail: Seq<Seq<char>>, k: int, dir: bool)
    requires
        no_separator(pre),
        0 <= k < pre.len(),
        is_type_token(pre[k], dir),
        forall|j: int| 0 <= j < pre.len() ==> !is_type_token(#[trigger] pre[j], !dir),
        is_path_tail(tail),
    ensures
        parse_tokens(pre + tail) matches Parsed::Config(c) ==> type_flag(c.flags, dir) && !type_flag(c.flags, !dir),
{
    lemma_top_level(pre, tail);
    lemma_keeps_type_flag(pre, 0, initial_scan(), !dir);
    lemma_type_token_sets(pre, 0, initial_scan(), k, dir);
}

/// What the top level alone reads decides the result; `--` and what follows
/// it only add paths.
proof fn lemma_top_level(pre: Seq<Seq<char>>, tail: Seq<Seq<char>>)
    requires
        no_separator(pre),
        is_path_tail(tail),
    ensures
        scan(pre + tail, 0, initial_scan()) is Config ==> scan(pre, 0, initial_scan()) is Config,
        scan(pre, 0, initial_scan()) matches Parsed::Config(s) ==> scan(pre + tail, 0, initial_scan())
            == Parsed::Config(Scan { paths: s.paths + tail_rest(tail), ..s }),
{
    lemma_prefix(pre, tail, 0, initial_scan());
    lemma_separator_token();
    let toks = pre + tail;
    if tail.len() > 0 {
        assert(toks[pre.len() as int] == "--"@);
        assert(toks.subrange(pre.len() as int + 1, toks.len() as int) =~= tail_rest(tail));
    } else {
        assert(toks =~= pre);
        assert(Seq::<Seq<char>>::empty() =~= tail_rest(tail));
    }
    if let Parsed::Config(s) = scan(pre, 0, initial_scan()) {
        assert(s.paths + tail_rest(tail) == s.paths + tail_rest(tail));
        if tail.len() == 0 {
            assert(s.paths + tail_rest(tail) =~= s.paths);
        }
    }
}

pub open spec fn tail_rest(tail: Seq<Seq<char>>) -> Seq<Seq<char>> {
    if tail.len() == 0 {
        tail
    } else {
        tail.drop_first()
    }
}

/// At the top level, after tokens that read without error or help,
/// `--minhop` or `--hop` with a value that is no unsigned number fails,
/// naming the value and the option; as the last token, it fails with the
/// message that the value is missing.
pub proof fn bad_depth_value_fails(pre: Seq<Seq<char>>, opt: Seq<char>, v: Seq<char>, post: Seq<Seq<char>>)
    requires
        no_separator(pre),
        scan(pre, 0, initial_scan()) is Config,
        is_depth_option(opt),
    ensures
        usize_of(v) is None ==> parse_tokens(pre + seq![opt, v] + post) == Parsed::Fail(invalid_number_msg(v, opt)),
        parse_tokens(pre + seq![opt]) == Parsed::Fail(missing_value_msg(opt)),
{
    lemma_value_option_token(opt);
    let toks = pre + seq![opt, v] + post;
    assert(toks =~= pre + (seq![opt, v] + post));
    lemma_prefix(pre, seq![opt, v] + post, 0, initial_scan());
    assert(toks[pre.len() as int] == opt);
    assert(toks[pre.len() as int + 1] == v);
    let short = pre + seq![opt];
    lemma_prefix(pre, seq![opt], 0, initial_scan());
    assert(short[pre.len() as int] == opt);
}

/// A negative depth is refused: at the top level, after tokens that read
/// without error or help, `--minhop` or `--hop` followed by a token that
/// starts with `-` takes it as its value and fails.
pub proof fn negative_depth_fails(pre: Seq<Seq<char>>, opt: Seq<char>, v: Seq<char>, post: Seq<Seq<char>>)
    requires
        no_separator(pre),
        scan(pre, 0, initial_scan()) is Config,
        is_depth_option(opt),
        is_dashed(v),
    ensures
        parse_tokens(pre + seq![opt, v] + post) == Parsed::Fail(invalid_number_msg(v, opt)),
{
    lemma_dashed_no_number(v);
    bad_depth_value_fails(pre, opt, v, post);
}

/// Every token after the first `--` at the top level is a path, whatever it
/// looks like: the result is what the tokens before it give, with those
/// paths (or the current directory when there are none).
pub proof fn separator_makes_paths(pre: Seq<Seq<char>>, rest: Seq<Seq<char>>)
    requires
        no_separator(pre),
    ensures
        parse_tokens(pre) matches Parsed::Config(q) ==> parse_tokens(pre + seq!["--"@] + rest) == Parsed::Config(
            Scan {
                paths: if rest.len() == 0 {
                    seq!["."@]
                } else {
                    rest
                },
                ..q
            },
        ),
        parse_tokens(pre) is Help ==> parse_tokens(pre + seq!["--"@] + rest) is Help,
{
    let tail = seq!["--"@] + rest;
    assert(pre + seq!["--"@] + rest =~= pre + tail);
    assert(tail.drop_first() =~= rest);
    lemma_prefix(pre, tail, 0, initial_scan());
    lemma_top_level(pre, tail);
    if let Parsed::Config(s) = scan(pre, 0, initial_scan()) {
        assert(s.paths.len() == 0) by {
            lemma_no_paths_before_separator(pre, 0, initial_scan());
        }
        assert(s.paths + rest =~= rest);
    }
}

/// Before any `--`, no path is collected.
proof fn lemma_no_paths_before_separator(toks: Seq<Seq<char>>, i: nat, st: Scan)
    requires
        no_separator(toks),
    ensures
        scan(toks, i, st) matches Parsed::Config(s) ==> s.paths == st.paths,
    decreases toks.len() - i,
{
    if i < toks.len() {
        assert(toks[i as int] != "--"@);
        if let Step::Next(j, next) = step(toks, i, st) {
            lemma_no_paths_before_separator(toks, j, next);
        }
    }
}

/// A configuration that was read has a pattern, at least one path, shows
/// directories or files, and has a minimum depth no greater than its maximum.
pub proof fn read_config_is_complete(toks: Seq<Seq<char>>)
    ensures
        parse_tokens(toks) matches Parsed::Config(c) ==> c.pattern is Some && c.paths.len() >= 1 && (c.flags.dir
            || c.flags.file) && c.hop.0 <= c.hop.1,
{
}

} // verus!
