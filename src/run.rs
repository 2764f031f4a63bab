//! Run-level rules: validating the settings before any work, reading the
//! extension allow-list, and tallying what happened to each file.

use vstd::prelude::*;
use crate::classify::views;
use crate::plan::{Action, SkipReason};
use crate::text::{chars_of, lower_of, lowercase, string_of, trim, trimmed};

verus! {

/// A setting that stops a run before it starts.
#[derive(Clone, Copy, Debug, PartialEq, Eq, Structural)]
pub enum ConfigError {
    /// Both "only simulate" and "apply changes" were asked for.
    ConflictingFlags,
    /// The root does not exist.
    MissingRoot,
    /// The root is not a directory.
    NotADirectory,
}

/// Whether a run changes the file system: only when changes were asked for
/// and a simulation was not. Asking for both is an error.
pub fn destructive_from_flags(dry_run: bool, yes: bool) -> (r: Result<bool, ConfigError>)
    ensures
        dry_run && yes ==> r == Err::<bool, ConfigError>(ConfigError::ConflictingFlags),
        !(dry_run && yes) ==> r == Ok::<bool, ConfigError>(yes),
{
    if dry_run && yes {
        Err(ConfigError::ConflictingFlags)
    } else {
        Ok(yes)
    }
}

/// Checks what was found at the root before a run.
pub fn check_root(exists: bool, is_dir: bool) -> (r: Result<(), ConfigError>)
    ensures
        !exists ==> r == Err::<(), ConfigError>(ConfigError::MissingRoot),
        exists && !is_dir ==> r == Err::<(), ConfigError>(ConfigError::NotADirectory),
        exists && is_dir ==> r is Ok,
{
    if !exists {
        Err(ConfigError::MissingRoot)
    } else if !is_dir {
        Err(ConfigError::NotADirectory)
    } else {
        Ok(())
    }
}

/// The comma-separated pieces of a text, empty ones included.
pub open spec fn split_commas(s: Seq<char>) -> Seq<Seq<char>>
    decreases s.len(),
{
    if s.len() == 0 {
        seq![Seq::empty()]
    } else {
        let p = split_commas(s.drop_last());
        if s.last() == ',' {
            p.push(Seq::empty())
        } else {
            p.update(p.len() - 1, p.last().push(s.last()))
        }
    }
}

/// Each piece trimmed and lower-cased, the empty results left out.
pub open spec fn normalized(pieces: Seq<Seq<char>>) -> Seq<Seq<char>>
    decreases pieces.len(),
{
    if pieces.len() == 0 {
        Seq::empty()
    } else {
        let rest = normalized(pieces.drop_last());
        let t = lower_of(trimmed(pieces.last()));
        if t.len() > 0 {
            rest.push(t)
        } else {
            rest
        }
    }
}

proof fn lemma_split_nonempty(s: Seq<char>)
    ensures
        split_commas(s).len() >= 1,
    decreases s.len(),
{
    if s.len() > 0 {
        lemma_split_nonempty(s.drop_last());
    }
}

/// Splits a text on commas.
fn split_on_commas(s: &str) -> (r: Vec<Vec<char>>)
    ensures
        r@.map_values(|v: Vec<char>| v@) == split_commas(s@),
{
    let chars = chars_of(s);
    let mut pieces: Vec<Vec<char>> = Vec::new();
    pieces.push(Vec::new());
    let mut i: usize = 0;
    assert(chars@.subrange(0, 0) =~= Seq::<char>::empty());
    assert(pieces@.map_values(|v: Vec<char>| v@) =~= split_commas(Seq::<char>::empty()));
    while i < chars.len()
        invariant
            i <= chars.len(),
            chars@ == s@,
            pieces.len() >= 1,
            pieces@.map_values(|v: Vec<char>| v@) == split_commas(chars@.subrange(0, i as int)),
        decreases chars.len() - i,
    {
        let c = chars[i];
        let ghost pre = chars@.subrange(0, i as int);
        let ghost next = chars@.subrange(0, i + 1);
        assert(next.drop_last() =~= pre);
        assert(next.last() == c);
        proof {
            lemma_split_nonempty(pre);
        }
        if c == ',' {
            pieces.push(Vec::new());
            assert(pieces@.map_values(|v: Vec<char>| v@) =~= split_commas(next));
        } else {
            let mut last = pieces.pop().unwrap();
            last.push(c);
            pieces.push(last);
            assert(pieces@.map_values(|v: Vec<char>| v@) =~= split_commas(next));
        }
        i = i + 1;
    }
    assert(chars@.subrange(0, chars.len() as int) =~= chars@);
    pieces
}

/// Reads an extension allow-list such as `"jpg, PNG,,mp4"`: the pieces between
/// commas, trimmed and lower-cased, with empty ones dropped.
pub fn parse_ext_list(s: &str) -> (r: Vec<String>)
    ensures
        views(r@) == normalized(split_commas(s@)),
{
    let pieces = split_on_commas(s);
    let ghost pv = pieces@.map_values(|v: Vec<char>| v@);
    let mut r: Vec<String> = Vec::new();
    let mut i: usize = 0;
    assert(pv.subrange(0, 0) =~= Seq::<Seq<char>>::empty());
    while i < pieces.len()
        invariant
            i <= pieces.len(),
            pv == pieces@.map_values(|v: Vec<char>| v@),
            views(r@) == normalized(pv.subrange(0, i as int)),
        decreases pieces.len() - i,
    {
        let piece = string_of(&pieces[i]);
        let t = lowercase(trim(piece.as_str()).as_str());
        let ghost next = pv.subrange(0, i + 1);
        assert(next.drop_last() =~= pv.subrange(0, i as int));
        assert(next.last() == pieces@[i as int]@);
        if t.unicode_len() > 0 {
            r.push(t);
            assert(views(r@) =~= normalized(next));
        }
        i = i + 1;
    }
    assert(pv.subrange(0, pieces.len() as int) =~= pv);
    r
}

/// Why a file could not be handled.
#[derive(Clone, Debug, PartialEq, Eq)]
pub enum Failure {
    /// No free destination name was found.
    Exhausted,
    /// Creating the folder or moving the file failed, with the cause.
    Io(String),
}

/// What happened to one file.
#[derive(Clone, Debug, PartialEq, Eq)]
pub enum Outcome {
    Skipped(SkipReason),
    /// Would have moved to `dir` (below the root) under `name`.
    Simulated { dir: Vec<String>, name: String },
    /// Moved to `dir` (below the root) under `name`.
    Moved { dir: Vec<String>, name: String },
    Failed(Failure),
}

/// The outcome of an action, given, for a relocation, how applying it went.
/// Only a relocation consults `applied`.
pub fn settle(action: Action, applied: Result<(), String>) -> (r: Outcome)
    ensures
        match action {
            Action::Skip(reason) => r == Outcome::Skipped(reason),
            Action::Exhausted => r == Outcome::Failed(Failure::Exhausted),
            Action::Preview { dir, name } => r == (Outcome::Simulated { dir, name }),
            Action::Relocate { dir, name } => match applied {
                Ok(_) => r == (Outcome::Moved { dir, name }),
                Err(e) => r == Outcome::Failed(Failure::Io(e)),
            },
        },
{
    match action {
        Action::Skip(reason) => Outcome::Skipped(reason),
        Action::Exhausted => Outcome::Failed(Failure::Exhausted),
        Action::Preview { dir, name } => Outcome::Simulated { dir, name },
        Action::Relocate { dir, name } => match applied {
            Ok(_) => Outcome::Moved { dir, name },
            Err(e) => Outcome::Failed(Failure::Io(e)),
        },
    }
}

/// One file and what happened to it.
#[derive(Clone, Debug)]
pub struct Event {
    /// Names from the root down to the file.
    pub path: Vec<String>,
    pub outcome: Outcome,
}

/// The tally of a run: counts by kind of outcome and the events in the
/// order the files were met.
#[derive(Debug)]
pub struct RunOutcome {
    pub processed: usize,
    pub skipped: usize,
    pub simulated: usize,
    pub moved: usize,
    pub failed: usize,
    pub events: Vec<Event>,
}

impl RunOutcome {
    pub open spec fn wf(&self) -> bool {
        &&& self.processed == self.events.len()
        &&& self.skipped + self.simulated + self.moved + self.failed == self.processed
    }

    /// The tally before any file.
    pub fn new() -> (r: RunOutcome)
        ensures
            r.wf(),
            r.processed == 0,
            r.skipped == 0,
            r.simulated == 0,
            r.moved == 0,
            r.failed == 0,
    {
        RunOutcome { processed: 0, skipped: 0, simulated: 0, moved: 0, failed: 0, events: Vec::new() }
    }

    /// Adds one file's event: it is appended, and the count of its kind and
    /// the number processed each grow by one.
    pub fn record(&mut self, event: Event)
        requires
            old(self).wf(),
            old(self).processed < usize::MAX,
        ensures
            final(self).wf(),
            final(self).events@ == old(self).events@.push(event),
            final(self).processed == old(self).processed + 1,
            final(self).skipped == old(self).skipped + if event.outcome is Skipped {
                1int
            } else {
                0
            },
            final(self).simulated == old(self).simulated + if event.outcome is Simulated {
                1int
            } else {
                0
            },
            final(self).moved == old(self).moved + if event.outcome is Moved {
                1int
            } else {
                0
            },
            final(self).failed == old(self).failed + if event.outcome is Failed {
                1int
            } else {
                0
            },
    {
        match &event.outcome {
            Outcome::Skipped(_) => self.skipped = self.skipped + 1,
            Outcome::Simulated { .. } => self.simulated = self.simulated + 1,
            Outcome::Moved { .. } => self.moved = self.moved + 1,
            Outcome::Failed(_) => self.failed = self.failed + 1,
        }
        self.processed = self.processed + 1;
        self.events.push(event);
    }

    /// Whether every file was handled without failure.
    pub fn succeeded(&self) -> (r: bool)
        ensures
            r == (self.failed == 0),
    {
        self.failed == 0
    }
}

} // verus!
