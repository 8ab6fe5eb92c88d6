use toa_find::cli::Parser;
use toa_find::find::{exit_code, Action, Entry, EntryKind, Event, Find};
use toa_find::pattern::Pattern;

fn find_of(args: &[&str]) -> Find {
    match Parser::from_args(args) {
        Ok(Some(p)) => Find::from_parser(p),
        _ => panic!("expected a configuration"),
    }
}

fn entry(path: &str, kind: EntryKind, depth: usize) -> Event {
    let name = path.rsplit('/').next().unwrap().to_string();
    Event::Found(Entry { path: path.to_string(), name, kind, depth })
}

fn tree() -> Vec<Event> {
    vec![
        entry("root", EntryKind::Dir, 0),
        entry("root/a.rs", EntryKind::File, 1),
        entry("root/b.rs", EntryKind::File, 1),
        entry("root/sub", EntryKind::Dir, 1),
        entry("root/sub/c.txt", EntryKind::File, 2),
        entry("root/link.rs", EntryKind::Other, 1),
    ]
}

/// Runs the events through the search: (result lines, error lines, status).
fn run(find: &Find, events: Vec<Event>) -> (Vec<String>, Vec<String>, i32) {
    let mut out = Vec::new();
    let mut err = Vec::new();
    for ev in events {
        match find.react(ev) {
            Action::Show(l) => out.push(l),
            Action::Warn(l) => err.push(l),
            Action::Skip => {}
        }
    }
    let code = exit_code(!out.is_empty());
    (out, err, code)
}

#[test]
fn rs_files_are_found() {
    let (out, err, code) = run(&find_of(&[r"\.rs$", "-f", "--", "root"]), tree());
    assert_eq!(out, vec!["root/a.rs".to_string(), "root/b.rs".to_string()]);
    assert!(err.is_empty());
    assert_eq!(code, 0);
}

#[test]
fn rs_dirs_are_not_found() {
    let (out, _, code) = run(&find_of(&[r"\.rs$", "-d", "--", "root"]), tree());
    assert!(out.is_empty());
    assert_eq!(code, 1);
}

#[test]
fn one_level_deep_only() {
    let (out, _, code) = run(&find_of(&[".*", "--minhop", "1", "--hop", "1"]), tree());
    assert_eq!(out, vec!["root/a.rs".to_string(), "root/b.rs".to_string(), "root/sub".to_string()]);
    assert_eq!(code, 0);
}

#[test]
fn missing_root_is_reported() {
    let (out, err, code) = run(&find_of(&["x", "--", "nope"]), vec![Event::Missing("nope".to_string())]);
    assert!(out.is_empty());
    assert_eq!(err, vec!["toa: nope cannot access".to_string()]);
    assert_eq!(code, 1);
}

#[test]
fn quiet_hides_errors_only() {
    let mut events = tree();
    events.push(Event::Missing("nope".to_string()));
    events.push(Event::Failed("permission denied".to_string()));
    let mut events2 = tree();
    events2.push(Event::Missing("nope".to_string()));
    events2.push(Event::Failed("permission denied".to_string()));
    let (out, err, code) = run(&find_of(&["rs", "--", "root", "nope"]), events);
    let (qout, qerr, qcode) = run(&find_of(&["rs", "-q", "--", "root", "nope"]), events2);
    assert_eq!(err, vec!["toa: nope cannot access".to_string(), "ERROR: permission denied".to_string()]);
    assert!(qerr.is_empty());
    assert_eq!(out, qout);
    assert_eq!(code, qcode);
}

#[test]
fn name_not_path_is_matched() {
    let find = find_of(&["^sub$"]);
    assert!(find.filter_name("sub"));
    assert!(!find.filter_name("root/sub/c.txt"));
    let (out, _, _) = run(&find, tree());
    assert_eq!(out, vec!["root/sub".to_string()]);
}

#[test]
fn filters_one_by_one() {
    let find = find_of(&["-f", "a"]);
    assert!(find.filter_type(EntryKind::File));
    assert!(!find.filter_type(EntryKind::Dir));
    assert!(!find.filter_type(EntryKind::Other));
    assert!(find.filter_depth(0));
    let (kept, line) = find.filter_error(Err("bad".to_string()));
    assert!(kept.is_none());
    assert_eq!(line, Some("ERROR: bad".to_string()));
    assert!(find.args().flags.file);
}

#[test]
fn pattern_compiles_and_matches() {
    let p = Pattern::new("b+").ok().unwrap();
    assert_eq!(p.as_str(), "b+");
    assert!(p.is_match("abbc"));
    assert!(!p.is_match("ac"));
    assert!(Pattern::new("[").is_err());
}

#[test]
fn exit_codes() {
    assert_eq!(exit_code(true), 0);
    assert_eq!(exit_code(false), 1);
}

#[test]
fn inverted_depths_walk_the_minimum() {
    let find = find_of(&[".*", "--minhop", "2", "--hop", "1"]);
    let (out, _, _) = run(&find, tree());
    assert_eq!(out, vec!["root/sub/c.txt".to_string()]);
}
