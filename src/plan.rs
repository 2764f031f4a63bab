//! The decision for one file: skip it (and why), report where it would go,
//! or relocate it.

use vstd::prelude::*;
use crate::classify::{bucket_spec, classify, ext_key, extension_key, views, Mode, YearMonth};
use crate::collision::{listed, resolve_name, resolved, variant, MAX_SUFFIX};
use crate::text::{
    decimal, digit_spec, ext_of, has_ext, last_dot, lemma_last_dot, lemma_last_dot_append, stem_of,
};

verus! {

/// Settings of one run. They do not change while it runs.
#[derive(Clone, Debug)]
pub struct Config {
    pub mode: Mode,
    /// Descend into subfolders, not only the root's own entries.
    pub recursive: bool,
    /// Lower-cased extension keys to act on; empty means all.
    pub allow: Vec<String>,
    /// Files smaller than this many bytes are left alone.
    pub min_size: u64,
    /// Apply the moves; when false nothing on disk is changed.
    pub destructive: bool,
}

/// What is read of one file before it is handled.
#[derive(Clone, Debug)]
pub struct FileRecord {
    /// Folder names from the root down to the file, ending with its own name.
    pub path: Vec<String>,
    pub size: u64,
    /// Last modification, in seconds since the Unix epoch, when readable.
    pub modified: Option<i64>,
}

impl FileRecord {
    pub open spec fn wf(&self) -> bool {
        self.path.len() >= 1
    }
}

/// Why a file is left where it is.
#[derive(Clone, Copy, Debug, PartialEq, Eq, Structural)]
pub enum SkipReason {
    /// Smaller than the configured minimum.
    TooSmall,
    /// Its extension key is not in a non-empty allow-list.
    NotAllowed,
    /// It already lies in its bucket.
    AlreadyPlaced,
}

/// What to do with one file.
#[derive(Clone, Debug, PartialEq, Eq)]
pub enum Action {
    Skip(SkipReason),
    /// Every candidate name in the bucket is taken.
    Exhausted,
    /// Report, without touching anything, that the file would move to
    /// `dir` (below the root) under `name`.
    Preview { dir: Vec<String>, name: String },
    /// Create `dir` (below the root) if absent and move the file there under `name`.
    Relocate { dir: Vec<String>, name: String },
}

pub open spec fn allowed(allow: Seq<Seq<char>>, key: Seq<char>) -> bool {
    allow.len() == 0 || listed(allow, key)
}

/// Why a file at `path` (below the root) is skipped, if it is.
pub open spec fn skip_spec(
    config: Config,
    path: Seq<Seq<char>>,
    size: u64,
    ym: YearMonth,
) -> Option<SkipReason> {
    let name = path.last();
    if size < config.min_size {
        Some(SkipReason::TooSmall)
    } else if !allowed(views(config.allow@), ext_key(name)) {
        Some(SkipReason::NotAllowed)
    } else if path.drop_last() == bucket_spec(config.mode, name, ym) {
        Some(SkipReason::AlreadyPlaced)
    } else {
        None
    }
}

/// The action for a file at `path` modified in `ym`, whose bucket folder holds `taken`.
pub open spec fn plan_spec(
    config: Config,
    path: Seq<Seq<char>>,
    size: u64,
    ym: YearMonth,
    taken: Seq<Seq<char>>,
    r: Action,
) -> bool {
    let name = path.last();
    let bucket = bucket_spec(config.mode, name, ym);
    match skip_spec(config, path, size, ym) {
        Some(reason) => r == Action::Skip(reason),
        None => match resolved(name, taken) {
            None => r is Exhausted,
            Some(n) => match r {
                Action::Preview { dir, name } => !config.destructive && views(dir@) == bucket
                    && name@ == n,
                Action::Relocate { dir, name } => config.destructive && views(dir@) == bucket
                    && name@ == n,
                _ => false,
            },
        },
    }
}

/// Tells whether two lists of names are equal.
fn same_names(a: &Vec<String>, b: &Vec<String>) -> (r: bool)
    ensures
        r == (views(a@) == views(b@)),
{
    if a.len() != b.len() {
        assert(views(a@).len() != views(b@).len());
        return false;
    }
    let mut i: usize = 0;
    while i < a.len()
        invariant
            a.len() == b.len(),
            i <= a.len(),
            forall|j: int| 0 <= j < i ==> a@[j]@ == b@[j]@,
        decreases a.len() - i,
    {
        if a[i] != b[i] {
            assert(views(a@)[i as int] != views(b@)[i as int]);
            return false;
        }
        i = i + 1;
    }
    assert(views(a@) =~= views(b@));
    true
}

/// Tells whether an extension key passes the allow-list.
pub fn is_allowed(allow: &Vec<String>, key: &String) -> (r: bool)
    ensures
        r == allowed(views(allow@), key@),
{
    allow.len() == 0 || crate::collision::is_listed(allow, key)
}

/// Decides what to do with one file, given the month it was modified in and
/// the names already present in its bucket folder. Files below the size
/// minimum, outside a non-empty allow-list, or already in their bucket are
/// skipped. Otherwise the file goes to its bucket under the name that
/// `resolve_name` picks: as a preview when the run is not destructive, as a
/// move when it is.
pub fn plan_file(config: &Config, record: &FileRecord, ym: YearMonth, taken: &Vec<String>) -> (r:
    Action)
    requires
        record.wf(),
    ensures
        plan_spec(*config, views(record.path@), record.size, ym, views(taken@), r),
        record.size < config.min_size ==> r == Action::Skip(SkipReason::TooSmall),
        !config.destructive ==> !(r is Relocate),
{
    let ghost path = views(record.path@);
    let name = &record.path[record.path.len() - 1];
    assert(path.last() == name@);
    if record.size < config.min_size {
        return Action::Skip(SkipReason::TooSmall);
    }
    let key = extension_key(name.as_str());
    if !is_allowed(&config.allow, &key) {
        return Action::Skip(SkipReason::NotAllowed);
    }
    let bucket = classify(config.mode, name.as_str(), ym);
    let mut parent = record.path.clone();
    assert(parent@ == record.path@);
    parent.pop();
    assert(views(parent@) =~= path.drop_last());
    if same_names(&parent, &bucket) {
        return Action::Skip(SkipReason::AlreadyPlaced);
    }
    match resolve_name(name.as_str(), taken) {
        Err(_) => Action::Exhausted,
        Ok(n) => {
            if config.destructive {
                Action::Relocate { dir: bucket, name: n }
            } else {
                Action::Preview { dir: bucket, name: n }
            }
        },
    }
}

proof fn lemma_decimal_has_no_dot(n: nat)
    ensures
        forall|j: int| 0 <= j < decimal(n).len() ==> decimal(n)[j] != '.',
    decreases n,
{
    let d = seq!['0', '1', '2', '3', '4', '5', '6', '7', '8', '9'];
    if n < 10 {
        assert(digit_spec(n) == d[n as int]);
        assert(d[n as int] != '.');
        assert(decimal(n)[0] == digit_spec(n));
    } else {
        lemma_decimal_has_no_dot(n / 10);
        let m = (n % 10) as nat;
        assert(digit_spec(m) == d[m as int]);
        assert(d[m as int] != '.');
        assert forall|j: int| 0 <= j < decimal(n).len() implies decimal(n)[j] != '.' by {
            if j < decimal(n / 10).len() {
                assert(decimal(n)[j] == decimal(n / 10)[j]);
            } else {
                assert(decimal(n)[j] == digit_spec(m));
            }
        }
    }
}

proof fn lemma_no_dot(s: Seq<char>)
    requires
        forall|j: int| 0 <= j < s.len() ==> s[j] != '.',
    ensures
        last_dot(s) == -1,
{
    lemma_no_dot_after(s, 0);
    assert(s.subrange(0, s.len() as int) =~= s);
}

proof fn lemma_no_dot_after(s: Seq<char>, lo: int)
    requires
        0 <= lo <= s.len(),
        forall|j: int| lo <= j < s.len() ==> s[j] != '.',
    ensures
        last_dot(s.subrange(lo, s.len() as int)) == -1,
    decreases s.len() - lo,
{
    let t = s.subrange(lo, s.len() as int);
    if t.len() > 0 {
        assert(t.drop_last() =~= s.subrange(lo, s.len() - 1));
        lemma_no_dot_after(s.drop_last(), lo);
        assert(s.drop_last().subrange(lo, s.len() - 1) =~= s.subrange(lo, s.len() - 1));
    }
}

/// A numbered variant keeps the extension of the name it was made from.
pub proof fn lemma_variant_keeps_ext_key(name: Seq<char>, i: nat)
    ensures
        ext_key(variant(name, i)) == ext_key(name),
{
    let v = variant(name, i);
    let mid = seq![' ', '('] + decimal(i) + seq![')'];
    lemma_last_dot(name);
    lemma_decimal_has_no_dot(i);
    assert forall|j: int| 0 <= j < mid.len() implies mid[j] != '.' by {
        if 2 <= j < 2 + decimal(i).len() {
            assert(mid[j] == decimal(i)[j - 2]);
        }
    }
    lemma_no_dot(mid);
    assert(last_dot(mid) == -1);
    if has_ext(name) {
        let ext = ext_of(name);
        let tail = seq!['.'] + ext;
        lemma_no_dot_after(name, last_dot(name) + 1);
        assert(tail.drop_last().len() < tail.len());
        lemma_last_dot(tail);
        assert(tail[0] == '.');
        assert forall|j: int| 1 <= j < tail.len() implies tail[j] != '.' by {
            assert(tail[j] == name[last_dot(name) + j]);
        }
        assert(last_dot(tail) == 0);
        assert(v =~= (stem_of(name) + mid) + tail);
        lemma_last_dot_append(stem_of(name) + mid, tail);
        assert(last_dot(v) == (stem_of(name) + mid).len());
        assert(ext_of(v) =~= ext);
    } else {
        assert(v =~= name + mid + Seq::<char>::empty());
        assert(v =~= name + mid);
        lemma_last_dot_append(name, mid);
    }
}

/// A file that a run relocates is, on a second run with the same settings and
/// the same modification month, skipped as already in its bucket: running the
/// organizer again moves nothing more.
pub proof fn lemma_relocated_file_is_placed(
    config: Config,
    path: Seq<Seq<char>>,
    size: u64,
    ym: YearMonth,
    taken: Seq<Seq<char>>,
)
    requires
        path.len() >= 1,
        skip_spec(config, path, size, ym) is None,
        resolved(path.last(), taken) is Some,
    ensures
        ({
            let bucket = bucket_spec(config.mode, path.last(), ym);
            let moved = bucket.push(resolved(path.last(), taken)->Some_0);
            skip_spec(config, moved, size, ym) == Some(SkipReason::AlreadyPlaced)
        }),
{
    let name = path.last();
    let bucket = bucket_spec(config.mode, name, ym);
    let n = resolved(name, taken)->Some_0;
    let moved = bucket.push(n);
    if listed(taken, name) {
        crate::collision::lemma_resolved_is_first_free(name, taken);
        let i = choose|i: nat|
            1 <= i <= MAX_SUFFIX && resolved(name, taken) == Some(variant(name, i)) && !listed(
                taken,
                variant(name, i),
            ) && forall|j: nat| 1 <= j < i ==> listed(taken, #[trigger] variant(name, j));
        lemma_variant_keeps_ext_key(name, i);
    }
    assert(ext_key(n) == ext_key(name));
    assert(moved.last() == n);
    assert(moved.drop_last() =~= bucket);
    assert(bucket_spec(config.mode, n, ym) == bucket);
}

/// A file below the size minimum is skipped for that reason, whatever the
/// mode, allow-list or bucket contents: no action touches it.
pub proof fn lemma_small_file_skipped(
    config: Config,
    path: Seq<Seq<char>>,
    size: u64,
    ym: YearMonth,
    taken: Seq<Seq<char>>,
    r: Action,
)
    requires
        size < config.min_size,
        plan_spec(config, path, size, ym, taken, r),
    ensures
        r == Action::Skip(SkipReason::TooSmall),
{
}

/// In a run that is not destructive no file is ever relocated: every action
/// is a skip, a failure or a preview.
pub proof fn lemma_preview_run_moves_nothing(
    config: Config,
    path: Seq<Seq<char>>,
    size: u64,
    ym: YearMonth,
    taken: Seq<Seq<char>>,
    r: Action,
)
    requires
        !config.destructive,
        plan_spec(config, path, size, ym, taken, r),
    ensures
        !(r is Relocate),
{
}

} // verus!
