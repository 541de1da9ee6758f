//! The record of what a run moved, kept as an append-only journal of
//! applied renames, and which of its entries `undo` takes.

use vstd::prelude::*;

verus! {

/// The on-disk layout version, the last path segment of the default
/// journal directory.
pub const FORMAT_VERSION: &'static str = "v1";

/// The journal file's name within that directory.
pub const JOURNAL_FILE: &'static str = "renames.jsonl";

/// Which run an entry belongs to: opaque, and only ever compared.
#[derive(Debug, Clone, PartialEq, Eq)]
pub struct RunId(pub String);

impl RunId {
    /// A run identifier reading exactly as `value`.
    pub fn new(value: &str) -> (r: RunId)
        ensures
            r.0@ == value@,
    {
        RunId(String::from_str(value))
    }

    /// The identifier as it appears in the journal.
    pub fn as_str(&self) -> (r: &str)
        ensures
            r@ == self.0@,
    {
        self.0.as_str()
    }
}

/// One applied rename.
#[derive(Debug, Clone, PartialEq, Eq)]
pub struct Entry {
    pub run: RunId,
    /// Where the file was before the run.
    pub from: String,
    /// Where the run put it.
    pub to: String,
    /// The content hash at the time of the move.
    pub hash: String,
    /// When the move happened, as the caller chose to render it.
    pub at: String,
}

/// A journal stored in a JSON Lines file.
#[derive(Debug, Clone, PartialEq, Eq)]
pub struct FileJournal {
    path: String,
}

impl FileJournal {
    /// A journal stored at `path`.
    pub fn new(path: String) -> (j: FileJournal)
        ensures
            j.path_spec() == path@,
    {
        FileJournal { path }
    }

    /// The file entries are appended to.
    pub closed spec fn path_spec(&self) -> Seq<char> {
        self.path@
    }

    /// A journal at [`JOURNAL_FILE`] under the state root `root`, or
    /// `None` when there is no state root.
    pub fn open_default(root: Option<String>) -> (j: Option<FileJournal>)
        ensures
            match root {
                Some(r) => j matches Some(fj) && fj.path_spec() == crate::paths::join_spec(
                    r@,
                    JOURNAL_FILE@,
                ),
                None => j is None,
            },
    {
        match root {
            Some(r) => Some(FileJournal::new(crate::paths::join(r.as_str(), JOURNAL_FILE))),
            None => None,
        }
    }

    /// The file entries are appended to.
    pub fn path(&self) -> (r: &str)
        ensures
            r@ == self.path_spec(),
    {
        self.path.as_str()
    }
}

/// The entries of the run the last entry belongs to, in the order they
/// were applied: the longest run of entries at the end of `entries`
/// sharing the last entry's run.
pub open spec fn last_run_start(entries: Seq<Entry>) -> int
    decreases entries.len(),
{
    if entries.len() <= 1 {
        0
    } else if entries[entries.len() - 2].run.0@ == entries.last().run.0@ {
        last_run_start(entries.drop_last())
    } else {
        entries.len() - 1
    }
}

/// The entries of the most recent run in `entries`, in the order they
/// were applied. "Most recent" is positional: the run of the last entry.
/// Empty when the journal is empty.
pub fn last_run(entries: &Vec<Entry>) -> (r: Vec<Entry>)
    ensures
        r@.len() == entries@.len() - last_run_start(entries@),
        forall|i: int| 0 <= i < r@.len() ==> #[trigger] r@[i] == entries@[last_run_start(entries@) + i],
{
    let n = entries.len();
    let mut r: Vec<Entry> = Vec::new();
    if n == 0 {
        return r;
    }
    let mut start: usize = n - 1;
    assert(entries@.take(n as int) =~= entries@);
    while start > 0 && crate::text::same(entries[start - 1].run.0.as_str(), entries[n - 1].run.0.as_str())
        invariant
            n == entries@.len(),
            n > 0,
            start < n,
            last_run_start(entries@) == last_run_start(entries@.take(start + 1)),
            forall|j: int| start <= j < n ==> (#[trigger] entries@[j]).run.0@ == entries@[n - 1].run.0@,
        decreases start,
    {
        assert(entries@.take(start as int + 1).drop_last() =~= entries@.take(start as int));
        start = start - 1;
    }
    proof {
        let t = entries@.take(start + 1);
        assert(t.last() == entries@[start as int]);
        if start > 0 {
            assert(t[t.len() - 2] == entries@[start - 1]);
        }
    }
    let mut i = start;
    while i < n
        invariant
            n == entries@.len(),
            start <= i <= n,
            start == last_run_start(entries@),
            r@.len() == i - start,
            forall|j: int| 0 <= j < r@.len() ==> #[trigger] r@[j] == entries@[start + j],
        decreases n - i,
    {
        let e = &entries[i];
        r.push(Entry {
            run: RunId(e.run.0.clone()),
            from: e.from.clone(),
            to: e.to.clone(),
            hash: e.hash.clone(),
            at: e.at.clone(),
        });
        i = i + 1;
    }
    r
}

} // verus!
