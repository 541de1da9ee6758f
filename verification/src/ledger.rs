//! The collection's ledger: where it lives, what a run does about what
//! it says, and the entries an admission or a rebuild produces.
//!
//! The ledger is derived accounting, rebuildable from the collection, so
//! nothing it says may stop a run: a ledger that is missing, corrupt, or
//! disabled turns duplicate detection off and warns.

use vstd::prelude::*;
use crate::event::{Diagnostic, DuplicateReason, Level};
use crate::journal::RunId;
use crate::paths::{join, join_spec};
use crate::pipeline::{FileRecord, copy_record};
use crate::record::{EntryType, Record};

verus! {

/// The directory a collection keeps its accounting in.
pub const ACCOUNTING_DIR: &'static str = ".borax";

/// The ledger's name within that directory.
pub const LEDGER_FILE: &'static str = "ledger.jsonl";

/// One admission the ledger records: a file's content, the identifiers
/// of the work it holds, and where it sits in the collection.
#[derive(Debug, Clone, PartialEq, Eq)]
pub struct LedgerEntry {
    pub hash: String,
    pub doi: Option<String>,
    pub arxiv: Option<String>,
    pub pmid: Option<u64>,
    pub isbn: Option<String>,
    /// Relative to the collection root, `/`-separated.
    pub path: String,
    pub entry_type: EntryType,
    pub run: RunId,
    pub timestamp: String,
    pub tool_version: String,
}

/// The entries a ledger holds, as read.
#[derive(Debug, Clone, PartialEq, Eq)]
pub struct Index {
    pub entries: Vec<LedgerEntry>,
}

/// What reading a ledger revealed beyond its entries.
#[derive(Debug, Clone, PartialEq, Eq)]
pub enum LedgerWarning {
    /// There is no ledger to read.
    Absent,
    /// A finished line does not parse; the message says which and why.
    Unparsable(String),
    /// The final line was cut off mid-append.
    TornTrailingLine,
}

/// A ledger as read, and what reading it revealed.
#[derive(Debug, Clone, PartialEq, Eq)]
pub struct Loaded {
    pub index: Index,
    pub warning: Option<LedgerWarning>,
}

/// A ledger backed by a JSON Lines file.
#[derive(Debug, Clone, PartialEq, Eq)]
pub struct FileLedger {
    path: String,
}

impl FileLedger {
    /// The file the ledger is read from and appended to.
    pub closed spec fn path_spec(&self) -> Seq<char> {
        self.path@
    }

    /// A ledger stored at `path`.
    pub fn new(path: String) -> (l: FileLedger)
        ensures
            l.path_spec() == path@,
    {
        FileLedger { path }
    }

    /// The ledger of the collection rooted at `root`: `ledger.jsonl`
    /// under its `.borax`.
    pub fn at_collection_root(root: &str) -> (l: FileLedger)
        ensures
            l.path_spec() == join_spec(join_spec(root@, ".borax"@), "ledger.jsonl"@),
    {
        let accounting = join(root, ACCOUNTING_DIR);
        FileLedger::new(join(accounting.as_str(), LEDGER_FILE))
    }

    /// The file entries are read from and appended to.
    pub fn path(&self) -> (r: &str)
        ensures
            r@ == self.path_spec(),
    {
        self.path.as_str()
    }
}

/// The duplicate detection a run works with, and what it has to say
/// about it.
#[derive(Debug, Clone, PartialEq, Eq)]
pub struct Prepared {
    pub index: Index,
    pub diagnostic: Option<Diagnostic>,
}

/// What a run says about `warning`.
pub open spec fn message_spec(warning: LedgerWarning) -> Seq<char> {
    match warning {
        LedgerWarning::Absent =>
            "this collection has no ledger yet, so duplicate detection is off for this run"@,
        LedgerWarning::Unparsable(why) => "the ledger is unreadable ("@ + why@
            + "), so duplicate detection is off for this run; borax ledger rebuild restores it"@,
        LedgerWarning::TornTrailingLine =>
            "the ledger's last line was cut off mid-append and was ignored; borax ledger rebuild restores it"@,
    }
}

/// What a run says about `warning`.
pub fn message_for(warning: &LedgerWarning) -> (r: String)
    ensures
        r@ == message_spec(*warning),
{
    match warning {
        LedgerWarning::Absent => String::from_str(
            "this collection has no ledger yet, so duplicate detection is off for this run",
        ),
        LedgerWarning::Unparsable(why) => {
            let mut r = String::from_str("the ledger is unreadable (");
            r.append(why.as_str());
            r.append(
                "), so duplicate detection is off for this run; borax ledger rebuild restores it",
            );
            r
        },
        LedgerWarning::TornTrailingLine => String::from_str(
            "the ledger's last line was cut off mid-append and was ignored; borax ledger rebuild restores it",
        ),
    }
}

/// Get the run's duplicate detection ready.
///
/// `enabled` is the ledger setting, and `loaded` is what reading the
/// ledger gave, `None` when the run is outside any collection. A run
/// told not to keep accounting, or with nowhere to keep it, checks
/// against nothing and says nothing. Otherwise the entries read are what
/// duplicates are checked against, and a warning becomes one warning
/// diagnostic naming its cause: the ledger can report a duplicate, never
/// veto a run.
pub fn prepare(enabled: bool, loaded: Option<Loaded>) -> (p: Prepared)
    ensures
        !enabled || loaded is None ==> p.index.entries@.len() == 0 && p.diagnostic is None,
        enabled && loaded is Some ==> {
            &&& p.index == loaded->0.index
            &&& match loaded->0.warning {
                Some(w) => p.diagnostic matches Some(d) && d.level == Level::Warning && d.message@
                    == message_spec(w),
                None => p.diagnostic is None,
            }
        },
{
    let off = Prepared { index: Index { entries: Vec::new() }, diagnostic: None };
    if !enabled {
        return off;
    }
    match loaded {
        None => off,
        Some(Loaded { index, warning }) => Prepared {
            index,
            diagnostic: match warning {
                Some(w) => Some(Diagnostic { level: Level::Warning, message: message_for(&w) }),
                None => None,
            },
        },
    }
}

/// `relative`, whose segments are separated by `/`, joined one segment
/// at a time onto `root`.
pub open spec fn relative_to_spec(root: Seq<char>, relative: Seq<char>) -> Seq<char>
    decreases relative.len(),
{
    let i = crate::paths::last_index(relative, '/');
    if i < 0 {
        join_spec(root, relative)
    } else {
        proof {
            crate::paths::lemma_last_index(relative, '/');
        }
        join_spec(relative_to_spec(root, relative.take(i)), relative.skip(i + 1))
    }
}

/// The full path of `relative`, which is `/`-separated and relative to
/// `collection_root` as a ledger entry's path is: each segment joined on
/// in turn.
pub fn relative_to(collection_root: &str, relative: &str) -> (r: String)
    ensures
        r@ == relative_to_spec(collection_root@, relative@),
    decreases relative@.len(),
{
    proof {
        crate::paths::lemma_last_index(relative@, '/');
    }
    let n = relative.unicode_len();
    match crate::paths::find_last(relative, '/') {
        None => join(collection_root, relative),
        Some(i) => {
            let front = crate::text::head(relative, i);
            let back = crate::text::tail(relative, i + 1);
            let base = relative_to(collection_root, front.as_str());
            join(base.as_str(), back.as_str())
        },
    }
}

/// `path` as a ledger entry's path, as `Path::strip_prefix` and then
/// the components of what is left give it: when the components of
/// `root` begin the components of `path`, the rest of `path`'s
/// components joined with `/`; `None` when `path` is not below `root`.
pub open spec fn collection_relative_spec(root: Seq<char>, path: Seq<char>) -> Option<Seq<char>> {
    let rc = crate::paths::components(root);
    let pc = crate::paths::components(path);
    if rc.len() <= pc.len() && pc.take(rc.len() as int) =~= rc {
        Some(crate::paths::joined(pc.skip(rc.len() as int)))
    } else {
        None
    }
}

/// `path` as a ledger entry's path: relative to `root`, `/`-separated.
/// `None` when `path` is not below `root`.
pub fn collection_relative(root: &str, path: &str) -> (r: Option<String>)
    ensures
        r matches Some(v) ==> collection_relative_spec(root@, path@) == Some(v@),
        r is None ==> collection_relative_spec(root@, path@) is None,
{
    let rc = crate::paths::components_of(root);
    let pc = crate::paths::components_of(path);
    let ghost rt = crate::paths::texts(rc@);
    let ghost pt = crate::paths::texts(pc@);
    assert(rt.len() == rc@.len() && pt.len() == pc@.len());
    if rc.len() > pc.len() {
        return None;
    }
    let mut i: usize = 0;
    while i < rc.len()
        invariant
            rc@.len() <= pc@.len(),
            i <= rc@.len(),
            rt == crate::paths::texts(rc@),
            pt == crate::paths::texts(pc@),
            rt == crate::paths::components(root@),
            pt == crate::paths::components(path@),
            rt.len() == rc@.len() && pt.len() == pc@.len(),
            forall|j: int| 0 <= j < i ==> rt[j] == pt[j],
        decreases rc@.len() - i,
    {
        if !crate::text::same(rc[i].as_str(), pc[i].as_str()) {
            assert(rt[i as int] != pt[i as int]);
            assert(!(pt.take(rt.len() as int) =~= rt)) by {
                assert(pt.take(rt.len() as int)[i as int] == pt[i as int]);
            }
            assert(collection_relative_spec(root@, path@) is None);
            return None;
        }
        i = i + 1;
    }
    assert(pt.take(rt.len() as int) =~= rt);
    let mut rest: Vec<String> = Vec::new();
    let mut k: usize = rc.len();
    while k < pc.len()
        invariant
            rc@.len() <= k <= pc@.len(),
            pt == crate::paths::texts(pc@),
            crate::paths::texts(rest@) =~= pt.subrange(rc@.len() as int, k as int),
        decreases pc@.len() - k,
    {
        let ghost was = crate::paths::texts(rest@);
        rest.push(pc[k].clone());
        assert(crate::paths::texts(rest@) =~= was.push(pt[k as int]));
        k = k + 1;
    }
    assert(crate::paths::texts(rest@) =~= pt.skip(rt.len() as int));
    Some(crate::paths::join_parts(&rest))
}

/// A ledger entry that matched an incoming file.
#[derive(Debug, Clone, PartialEq, Eq)]
pub struct Duplicate {
    pub reason: DuplicateReason,
    /// Relative to the collection root, `/`-separated.
    pub existing_path: String,
}

/// Whether the file `duplicate` names is still in the collection:
/// `is_there` is asked about its full path, and its answer decides.
pub fn duplicate_is_live(
    duplicate: &Duplicate,
    collection_root: &str,
    is_there: impl Fn(String) -> bool,
) -> (r: bool)
    requires
        forall|p: String| call_requires(is_there, (p,)),
    ensures
        exists|p: String|
            p@ == relative_to_spec(collection_root@, duplicate.existing_path@) && call_ensures(
                is_there,
                (p,),
                r,
            ),
{
    let full = relative_to(collection_root, duplicate.existing_path.as_str());
    let ghost g = full;
    let r = is_there(full);
    assert(call_ensures(is_there, (g,), r));
    r
}

/// One file found in a collection, with everything a ledger entry
/// needs from it.
#[derive(Debug, Clone, PartialEq, Eq)]
pub struct Scanned {
    /// Relative to the collection root, `/`-separated.
    pub path: String,
    pub hash: String,
    /// The record recovered from the file's sidecar.
    pub record: Record,
}

/// The entry recording `record` at `path`, carrying every identifier
/// the record holds.
pub open spec fn entry_spec(
    record: Record,
    hash: String,
    path: Seq<char>,
    run: Seq<char>,
    timestamp: Seq<char>,
    tool_version: Seq<char>,
    entry: LedgerEntry,
) -> bool {
    &&& entry.hash == hash
    &&& entry.doi == record.doi
    &&& entry.arxiv == record.arxiv
    &&& entry.pmid == record.pmid
    &&& entry.isbn == record.isbn
    &&& entry.path@ == path
    &&& entry.entry_type == record.entry_type
    &&& entry.run.0@ == run
    &&& entry.timestamp@ == timestamp
    &&& entry.tool_version@ == tool_version
}

/// A ledger entry files each of the record's identifiers under its own
/// kind: the DOI as the DOI, the arXiv id as the arXiv id, the PubMed id
/// as the PubMed id and the ISBN as the ISBN, so a later admission of
/// the same work under any one of them finds this entry; and it carries
/// the file's own hash, the kind of work, where the file sits, and the
/// run, time and tool version of the admission.
pub proof fn entries_file_each_identifier_under_its_kind(
    record: Record,
    hash: String,
    path: Seq<char>,
    run: Seq<char>,
    timestamp: Seq<char>,
    tool_version: Seq<char>,
    entry: LedgerEntry,
)
    requires
        entry_spec(record, hash, path, run, timestamp, tool_version, entry),
    ensures
        entry.doi == record.doi,
        entry.arxiv == record.arxiv,
        entry.pmid == record.pmid,
        entry.isbn == record.isbn,
        entry.hash == hash,
        entry.entry_type == record.entry_type,
        entry.path@ == path,
        entry.run.0@ == run,
        entry.timestamp@ == timestamp,
        entry.tool_version@ == tool_version,
{
}

fn entry_for(
    record: &Record,
    hash: String,
    path: &str,
    run: &RunId,
    timestamp: &str,
    tool_version: &str,
) -> (e: LedgerEntry)
    ensures
        entry_spec(*record, hash, path@, run.0@, timestamp@, tool_version@, e),
{
    let copied = copy_record(record);
    LedgerEntry {
        hash,
        doi: copied.doi,
        arxiv: copied.arxiv,
        pmid: copied.pmid,
        isbn: copied.isbn,
        path: String::from_str(path),
        entry_type: copied.entry_type,
        run: RunId(run.0.clone()),
        timestamp: String::from_str(timestamp),
        tool_version: String::from_str(tool_version),
    }
}

/// The ledger entries a scanned collection amounts to: one per scanned
/// file, in the scan's order, each stamped with the same `run`,
/// `timestamp` and `tool_version`, since the whole rebuild is one
/// admission.
pub fn rebuild(scanned: &Vec<Scanned>, run: &RunId, timestamp: &str, tool_version: &str) -> (r: Vec<
    LedgerEntry,
>)
    ensures
        r@.len() == scanned@.len(),
        forall|i: int|
            0 <= i < r@.len() ==> (#[trigger] r@[i]).doi == scanned@[i].record.doi && r@[i].arxiv
                == scanned@[i].record.arxiv && r@[i].pmid == scanned@[i].record.pmid && r@[i].isbn
                == scanned@[i].record.isbn && r@[i].hash == scanned@[i].hash,
        forall|i: int|
            0 <= i < r@.len() ==> entry_spec(
                scanned@[i].record,
                scanned@[i].hash,
                scanned@[i].path@,
                run.0@,
                timestamp@,
                tool_version@,
                #[trigger] r@[i],
            ),
{
    let mut r: Vec<LedgerEntry> = Vec::new();
    let mut i: usize = 0;
    while i < scanned.len()
        invariant
            i <= scanned@.len(),
            r@.len() == i,
            forall|j: int|
                0 <= j < i ==> entry_spec(
                    scanned@[j].record,
                    scanned@[j].hash,
                    scanned@[j].path@,
                    run.0@,
                    timestamp@,
                    tool_version@,
                    #[trigger] r@[j],
                ),
        decreases scanned@.len() - i,
    {
        let s = &scanned[i];
        r.push(entry_for(&s.record, s.hash.clone(), s.path.as_str(), run, timestamp, tool_version));
        i = i + 1;
    }
    r
}

/// The ledger entry an applied admission of `file` to `path` appends,
/// or `None` when the file's hash is unknown: an entry no later run
/// could match by content records an admission the ledger cannot
/// recognise again.
pub fn admission_entry(
    file: &FileRecord,
    path: &str,
    run: &RunId,
    timestamp: &str,
    tool_version: &str,
) -> (r: Option<LedgerEntry>)
    ensures
        match file.hash {
            Some(hash) => r matches Some(e) && entry_spec(
                file.record,
                hash,
                path@,
                run.0@,
                timestamp@,
                tool_version@,
                e,
            ),
            None => r is None,
        },
        r matches Some(e) ==> e.doi == file.record.doi && e.arxiv == file.record.arxiv && e.pmid
            == file.record.pmid && e.isbn == file.record.isbn && file.hash == Some(e.hash),
{
    match &file.hash {
        Some(hash) => Some(
            entry_for(&file.record, hash.clone(), path, run, timestamp, tool_version),
        ),
        None => None,
    }
}

} // verus!
