//! The decisions of a search: which walked entries are shown, and what is
//! reported when a root is missing or a node cannot be read. The walk itself
//! is done by the caller, which hands each thing it meets to `Find::react`.
use crate::cli::{Flags, Parser, Scan};
use crate::pattern::regex_is_match;
use vstd::prelude::*;

verus! {

/// The type of a walked entry, as the walk saw it: a symbolic link that is
/// not followed is `Other`.
#[derive(Clone, Copy, Debug, PartialEq, Eq, Structural)]
pub enum EntryKind {
    File,
    Dir,
    Other,
}

/// An entry met by the walk.
#[derive(Debug)]
pub struct Entry {
    /// The path as the walk found it, under its root.
    pub path: String,
    /// The last component of the path.
    pub name: String,
    pub kind: EntryKind,
    /// Levels below the root; the root itself is at depth 0.
    pub depth: usize,
}

/// What the walk hands to the search.
#[derive(Debug)]
pub enum Event {
    /// A root path that does not exist.
    Missing(String),
    /// A node that could not be read, with the error's text.
    Failed(String),
    /// An entry that was read.
    Found(Entry),
}

/// What the search answers to an event.
#[derive(Debug)]
pub enum Action {
    /// Print the line as a result.
    Show(String),
    /// Print the line on the error channel.
    Warn(String),
    /// Nothing to print.
    Skip,
}

/// An action, with its line as a view.
pub ghost enum Reply {
    Show(Seq<char>),
    Warn(Seq<char>),
    Skip,
}

impl View for Action {
    type V = Reply;

    open spec fn view(&self) -> Reply {
        match self {
            Action::Show(s) => Reply::Show(s@),
            Action::Warn(s) => Reply::Warn(s@),
            Action::Skip => Reply::Skip,
        }
    }
}

pub open spec fn missing_root_msg(path: Seq<char>) -> Seq<char> {
    "toa: "@ + path + " cannot access"@
}

pub open spec fn walk_error_msg(detail: Seq<char>) -> Seq<char> {
    "ERROR: "@ + detail
}

/// Whether an entry of this kind is shown under these flags.
pub open spec fn type_selected(flags: Flags, kind: EntryKind) -> bool {
    (kind == EntryKind::File && flags.file) || (kind == EntryKind::Dir && flags.dir)
}

pub open spec fn depth_selected(hop: (usize, usize), depth: usize) -> bool {
    hop.0 <= depth && depth <= hop.1
}

/// Whether `cfg` shows the entry: within the depth range, of a selected type,
/// and with a name that the pattern matches.
pub open spec fn selected(cfg: Scan, e: Entry) -> bool {
    &&& depth_selected(cfg.hop, e.depth)
    &&& type_selected(cfg.flags, e.kind)
    &&& regex_is_match(cfg.pattern->0, e.name@)
}

/// The answer of a search configured by `cfg` to one event.
pub open spec fn reply(cfg: Scan, ev: Event) -> Reply {
    match ev {
        Event::Missing(p) => if cfg.flags.quiet {
            Reply::Skip
        } else {
            Reply::Warn(missing_root_msg(p@))
        },
        Event::Failed(d) => if cfg.flags.quiet {
            Reply::Skip
        } else {
            Reply::Warn(walk_error_msg(d@))
        },
        Event::Found(e) => if selected(cfg, e) {
            Reply::Show(e.path@)
        } else {
            Reply::Skip
        },
    }
}

/// The result lines that `cfg` prints for the events, in order.
pub open spec fn shown(cfg: Scan, evs: Seq<Event>) -> Seq<Seq<char>>
    decreases evs.len(),
{
    if evs.len() == 0 {
        Seq::empty()
    } else {
        let rest = shown(cfg, evs.drop_last());
        match reply(cfg, evs.last()) {
            Reply::Show(line) => rest.push(line),
            _ => rest,
        }
    }
}

/// The error lines that `cfg` prints for the events, in order.
pub open spec fn warned(cfg: Scan, evs: Seq<Event>) -> Seq<Seq<char>>
    decreases evs.len(),
{
    if evs.len() == 0 {
        Seq::empty()
    } else {
        let rest = warned(cfg, evs.drop_last());
        match reply(cfg, evs.last()) {
            Reply::Warn(line) => rest.push(line),
            _ => rest,
        }
    }
}

/// The exit status of a whole run: `0` when at least one result was printed.
pub open spec fn status_of(lines: Seq<Seq<char>>) -> i32 {
    if lines.len() > 0 {
        0
    } else {
        1
    }
}

/// Exit status of a search: `0` when something was printed, `1` otherwise.
pub fn exit_code(matched: bool) -> (r: i32)
    ensures
        r == (if matched { 0i32 } else { 1i32 }),
{
    if matched {
        0
    } else {
        1
    }
}

/// A search, configured once and read-only from then on.
pub struct Find {
    args: Parser,
}

impl Find {
    /// The configuration the search was made with.
    pub closed spec fn parser(&self) -> Parser {
        self.args
    }

    pub open spec fn config(&self) -> Scan {
        self.parser().model()
    }

    pub fn from_parser(parser: Parser) -> (r: Find)
        ensures
            r.parser() == parser,
    {
        Find { args: parser }
    }

    /// The configuration the search was made with.
    pub fn args(&self) -> (r: &Parser)
        ensures
            *r == self.parser(),
    {
        &self.args
    }

    /// Filter by type of entry.
    pub fn filter_type(&self, kind: EntryKind) -> (r: bool)
        ensures
            r == type_selected(self.config().flags, kind),
    {
        (kind == EntryKind::File && self.args.flags.file) || (kind == EntryKind::Dir && self.args.flags.dir)
    }

    /// Filter by name of entry: the pattern is matched against the name alone.
    pub fn filter_name(&self, name: &str) -> (r: bool)
        ensures
            r == regex_is_match(self.config().pattern->0, name@),
    {
        self.args.pattern.is_match(name)
    }

    /// Filter by depth of entry.
    pub fn filter_depth(&self, depth: usize) -> (r: bool)
        ensures
            r == depth_selected(self.config().hop, depth),
    {
        self.args.opts.hop.0 <= depth && depth <= self.args.opts.hop.1
    }

    /// Keeps an entry that was read; for a node that could not be read,
    /// gives the line to print on the error channel, none when quiet.
    pub fn filter_error(&self, value: Result<Entry, String>) -> (r: (Option<Entry>, Option<String>))
        ensures
            match value {
                Ok(e) => r.0 == Some(e) && r.1 is None,
                Err(d) => r.0 is None && if self.config().flags.quiet {
                    r.1 is None
                } else {
                    r.1 matches Some(line) && line@ == walk_error_msg(d@)
                },
            },
    {
        match value {
            Ok(entry) => (Some(entry), None),
            Err(detail) => {
                if self.args.flags.quiet {
                    (None, None)
                } else {
                    let mut line = String::from_str("ERROR: ");
                    line.append(detail.as_str());
                    (None, Some(line))
                }
            },
        }
    }

    /// Whether the entry is shown.
    pub fn accepts(&self, entry: &Entry) -> (r: bool)
        ensures
            r == selected(self.config(), *entry),
    {
        self.filter_depth(entry.depth) && self.filter_type(entry.kind) && self.filter_name(entry.name.as_str())
    }

    /// What to print for one event of the walk.
    pub fn react(&self, event: Event) -> (r: Action)
        ensures
            r@ == reply(self.config(), event),
    {
        match event {
            Event::Missing(path) => {
                if self.args.flags.quiet {
                    Action::Skip
                } else {
                    let mut line = String::from_str("toa: ");
                    line.append(path.as_str());
                    line.append(" cannot access");
                    Action::Warn(line)
                }
            },
            Event::Failed(detail) => match self.filter_error(Err(detail)) {
                (_, Some(line)) => Action::Warn(line),
                _ => Action::Skip,
            },
            Event::Found(entry) => {
                if self.accepts(&entry) {
                    Action::Show(entry.path)
                } else {
                    Action::Skip
                }
            },
        }
    }
}


/// The configuration with errors kept quiet.
pub open spec fn quieted(cfg: Scan) -> Scan {
    Scan { flags: Flags { quiet: true, ..cfg.flags }, ..cfg }
}

/// Keeping quiet prints no error line, and changes neither the result lines
/// nor the exit status, whatever the walk meets.
pub proof fn quiet_changes_only_errors(cfg: Scan, evs: Seq<Event>)
    ensures
        warned(quieted(cfg), evs).len() == 0,
        shown(quieted(cfg), evs) == shown(cfg, evs),
        status_of(shown(quieted(cfg), evs)) == status_of(shown(cfg, evs)),
    decreases evs.len(),
{
    if evs.len() > 0 {
        quiet_changes_only_errors(cfg, evs.drop_last());
    }
}

/// Whether the event is an entry that `cfg` shows, printed as `line`.
pub open spec fn shows_entry(cfg: Scan, ev: Event, line: Seq<char>) -> bool {
    match ev {
        Event::Found(e) => selected(cfg, e) && e.path@ == line,
        _ => false,
    }
}

/// Every result line is the path of an entry that the walk met, within the
/// depth range, of a selected type, and with a name that the pattern matches.
pub proof fn shown_entries_are_selected(cfg: Scan, evs: Seq<Event>)
    ensures
        forall|i: int| 0 <= i < shown(cfg, evs).len() ==> exists|k: int| 0 <= k < evs.len()
            && shows_entry(cfg, #[trigger] evs[k], #[trigger] shown(cfg, evs)[i]),
    decreases evs.len(),
{
    if evs.len() > 0 {
        let init = evs.drop_last();
        shown_entries_are_selected(cfg, init);
        let rest = shown(cfg, init);
        assert forall|i: int| 0 <= i < shown(cfg, evs).len() implies exists|k: int| 0 <= k < evs.len()
            && shows_entry(cfg, #[trigger] evs[k], #[trigger] shown(cfg, evs)[i]) by {
            if i < rest.len() {
                let k = choose|k: int| 0 <= k < init.len() && shows_entry(cfg, #[trigger] init[k], #[trigger] rest[i]);
                assert(evs[k] == init[k]);
                assert(shown(cfg, evs)[i] == rest[i]);
            } else {
                let k = evs.len() - 1;
                assert(evs[k] == evs.last());
                assert(shows_entry(cfg, evs[k], shown(cfg, evs)[i]));
            }
        }
    }
}

/// When the walk meets no entry (every root missing, every node unreadable),
/// nothing is printed as a result and the exit status is `1`; unless quiet,
/// each event gets its error line.
pub proof fn no_entry_no_match(cfg: Scan, evs: Seq<Event>)
    requires
        forall|k: int| 0 <= k < evs.len() ==> !(#[trigger] evs[k] is Found),
    ensures
        shown(cfg, evs).len() == 0,
        status_of(shown(cfg, evs)) == 1,
        !cfg.flags.quiet ==> warned(cfg, evs).len() == evs.len(),
    decreases evs.len(),
{
    if evs.len() > 0 {
        assert(!(evs[evs.len() - 1] is Found));
        no_entry_no_match(cfg, evs.drop_last());
    }
}

} // verus!
