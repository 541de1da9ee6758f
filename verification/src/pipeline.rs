//! Turning a file into a record: what each way of failing is reported
//! as, and what a batch adds up to.

use vstd::prelude::*;
use crate::config::{SourceName, source_text};
use crate::event::{Attempt, Counts, Event, SkipReason};
use crate::record::{Record, identifier_of, identifier_spec};

verus! {

/// The message an encrypted file is reported unreadable with.
pub const ENCRYPTED: &'static str = "the PDF is encrypted";

/// Why a file yielded no identifier.
#[derive(Debug, Clone, PartialEq, Eq)]
pub enum ExtractionError {
    /// The file could not be read as a PDF.
    Unreadable { message: String },
    /// The PDF is encrypted.
    Encrypted,
    /// The PDF has no text to search.
    NoTextLayer,
    /// Neither pass found an identifier.
    NoIdentifierFound,
}

/// A record, and how the run came by it.
#[derive(Debug, Clone, PartialEq, Eq)]
pub struct FileRecord {
    pub record: Record,
    /// The file's content hash, when it could be taken.
    pub hash: Option<String>,
    /// The service that answered, or `None` when the content index did.
    pub source: Option<SourceName>,
    /// The extraction pass that supplied the identifier, or `None` when
    /// the content index answered.
    pub tier: Option<String>,
    /// Whether the content index answered.
    pub cached: bool,
}

/// What became of one file.
#[derive(Debug, Clone, PartialEq, Eq)]
pub enum FileOutcome {
    Resolved(FileRecord),
    Skipped(SkipReason),
}

/// What a run may do while resolving.
#[derive(Debug, Clone, Copy, PartialEq, Eq, Structural)]
pub struct ResolveConfig {
    /// How many pages of a PDF the text-layer pass reads.
    pub page_limit: usize,
    /// Whether the content index may answer for a file.
    pub cache: bool,
}

/// Whether `reason` is the skip the extraction failure `error`
/// reports: an unreadable file is unreadable with its own message, an
/// encrypted one unreadable as encrypted, and a file with no text or no
/// identifier has no identifier.
pub open spec fn skip_for(error: ExtractionError, reason: SkipReason) -> bool {
    match error {
        ExtractionError::Unreadable { message } => reason == (SkipReason::Unreadable { message }),
        ExtractionError::Encrypted => reason matches SkipReason::Unreadable { message } && message@
            == ENCRYPTED@,
        _ => reason == SkipReason::NoIdentifier,
    }
}

/// The skip an extraction failure reports.
pub fn skipped_for(error: &ExtractionError) -> (r: SkipReason)
    ensures
        skip_for(*error, r),
{
    match error {
        ExtractionError::Unreadable { message } => SkipReason::Unreadable { message: message.clone() },
        ExtractionError::Encrypted => SkipReason::Unreadable { message: String::from_str(ENCRYPTED) },
        ExtractionError::NoTextLayer => SkipReason::NoIdentifier,
        ExtractionError::NoIdentifierFound => SkipReason::NoIdentifier,
    }
}

/// Whether `reason` reports a resolution that failed with `attempts`,
/// keeping what each source said in the order the sources were asked.
pub open spec fn unresolved_reason(attempts: Seq<(SourceName, String)>, reason: SkipReason) -> bool {
    reason matches SkipReason::Unresolvable { attempts: said } && said@.len() == attempts.len()
        && forall|i: int|
        0 <= i < attempts.len() ==> (#[trigger] said@[i]).source@ == source_text(attempts[i].0)
            && said@[i].error == attempts[i].1
}

/// The skip a failed resolution reports, keeping what each source said
/// in the order the sources were asked.
pub fn unresolvable(attempts: &Vec<(SourceName, String)>) -> (r: SkipReason)
    ensures
        unresolved_reason(attempts@, r),
{
    let mut said: Vec<Attempt> = Vec::new();
    let mut i: usize = 0;
    while i < attempts.len()
        invariant
            i <= attempts@.len(),
            said@.len() == i,
            forall|j: int|
                0 <= j < i ==> (#[trigger] said@[j]).source@ == source_text(attempts@[j].0)
                    && said@[j].error == attempts@[j].1,
        decreases attempts@.len() - i,
    {
        let (source, error) = &attempts[i];
        said.push(
            Attempt { source: String::from_str(source.as_str()), error: error.clone() },
        );
        i = i + 1;
    }
    SkipReason::Unresolvable { attempts: said }
}

/// The name a resolved file's source is reported under: the service's
/// own, or `cache` when the content index answered.
pub open spec fn source_label(source: Option<SourceName>) -> Seq<char> {
    match source {
        Some(s) => source_text(s),
        None => "cache"@,
    }
}

/// Whether `event` reports `outcome` for `path`.
pub open spec fn reports(event: Event, path: Seq<char>, outcome: FileOutcome) -> bool {
    match outcome {
        FileOutcome::Resolved(file) => event matches Event::Resolved {
            path: p,
            identifier,
            record,
            source,
            tier,
            cached,
        } && p@ == path && identifier@ == identifier_spec(file.record) && record == file.record
            && source@ == source_label(file.source) && tier == file.tier && cached == file.cached,
        FileOutcome::Skipped(reason) => event matches Event::Skipped { path: p, reason: r } && p@
            == path && same_reason(r, reason),
    }
}

/// The event that reports `outcome` for `path`.
pub fn event_for(path: &str, outcome: &FileOutcome) -> (e: Event)
    ensures
        reports(e, path@, *outcome),
{
    match outcome {
        FileOutcome::Resolved(file) => Event::Resolved {
            path: String::from_str(path),
            identifier: identifier_of(&file.record),
            record: copy_record(&file.record),
            source: match file.source {
                Some(source) => String::from_str(source.as_str()),
                None => String::from_str("cache"),
            },
            tier: crate::cli::copy_opt(&file.tier),
            cached: file.cached,
        },
        FileOutcome::Skipped(reason) => Event::Skipped {
            path: String::from_str(path),
            reason: copy_reason(reason),
        },
    }
}

/// A resolved file is reported under its record's DOI whenever the
/// record has one, and under its arXiv id only when it has no DOI.
pub proof fn a_resolved_file_is_reported_under_its_doi(
    event: Event,
    path: Seq<char>,
    file: FileRecord,
)
    requires
        reports(event, path, FileOutcome::Resolved(file)),
    ensures
        file.record.doi matches Some(d) ==> event matches Event::Resolved { identifier, .. }
            && identifier@ == d@,
        file.record.arxiv matches Some(a) ==> (file.record.doi is None ==> (event matches Event::Resolved {
            identifier,
            ..
        } && identifier@ == a@)),
{
    crate::record::the_doi_wins(file.record);
}

/// A copy of `record`.
pub fn copy_record(record: &Record) -> (r: Record)
    ensures
        r == *record,
{
    Record {
        doi: crate::cli::copy_opt(&record.doi),
        arxiv: crate::cli::copy_opt(&record.arxiv),
        pmid: record.pmid,
        isbn: crate::cli::copy_opt(&record.isbn),
        title: crate::cli::copy_opt(&record.title),
        entry_type: record.entry_type,
    }
}

/// Whether two skip reasons say the same thing: equal, the attempts of
/// an unresolvable file compared element by element.
pub open spec fn same_reason(a: SkipReason, b: SkipReason) -> bool {
    match (a, b) {
        (SkipReason::Unresolvable { attempts: x }, SkipReason::Unresolvable { attempts: y }) => x@
            == y@,
        _ => a == b,
    }
}

/// A copy of `reason`.
pub fn copy_reason(reason: &SkipReason) -> (r: SkipReason)
    ensures
        same_reason(r, *reason),
{
    match reason {
        SkipReason::NoIdentifier => SkipReason::NoIdentifier,
        SkipReason::Unresolvable { attempts } => {
            let mut copied: Vec<Attempt> = Vec::new();
            let mut i: usize = 0;
            while i < attempts.len()
                invariant
                    i <= attempts@.len(),
                    copied@ == attempts@.take(i as int),
                decreases attempts@.len() - i,
            {
                let a = &attempts[i];
                copied.push(Attempt { source: a.source.clone(), error: a.error.clone() });
                assert(attempts@.take(i + 1) =~= attempts@.take(i as int).push(attempts@[i as int]));
                i = i + 1;
            }
            assert(attempts@.take(attempts@.len() as int) =~= attempts@);
            SkipReason::Unresolvable { attempts: copied }
        },
        SkipReason::Conflict { field, extracted, resolved, similarity } => SkipReason::Conflict {
            field: field.clone(),
            extracted: extracted.clone(),
            resolved: resolved.clone(),
            similarity: *similarity,
        },
        SkipReason::TargetTaken { target } => SkipReason::TargetTaken { target: target.clone() },
        SkipReason::AlreadyNamed => SkipReason::AlreadyNamed,
        SkipReason::Unreadable { message } => SkipReason::Unreadable { message: message.clone() },
        SkipReason::Unnameable => SkipReason::Unnameable,
        SkipReason::RenameFailed { message } => SkipReason::RenameFailed { message: message.clone() },
        SkipReason::BibWriteFailed { message } => SkipReason::BibWriteFailed {
            message: message.clone(),
        },
        SkipReason::Unciteable => SkipReason::Unciteable,
        SkipReason::SidecarTaken { target } => SkipReason::SidecarTaken { target: target.clone() },
        SkipReason::Unrecordable { message } => SkipReason::Unrecordable { message: message.clone() },
        SkipReason::Duplicate { reason, existing_path } => SkipReason::Duplicate {
            reason: *reason,
            existing_path: existing_path.clone(),
        },
        SkipReason::Missing => SkipReason::Missing,
        SkipReason::ContentChanged => SkipReason::ContentChanged,
        SkipReason::OriginalTaken => SkipReason::OriginalTaken,
    }
}

/// What extraction found in a file.
#[derive(Debug, Clone, PartialEq, Eq)]
pub struct Extracted {
    /// The identifier found.
    pub identifier: String,
    /// The pass that found it.
    pub tier: String,
    /// The title the file's own metadata gives, if any.
    pub title: Option<String>,
}

/// A disagreement between a file's own metadata and the record resolved
/// for it.
#[derive(Debug, Clone, PartialEq, Eq)]
pub struct Conflict {
    pub field: String,
    pub extracted: String,
    pub resolved: String,
    /// How close the two were, as a whole percentage.
    pub similarity: u64,
}

/// The skip a conflict reports.
pub open spec fn conflict_reason(c: Conflict) -> SkipReason {
    SkipReason::Conflict {
        field: c.field,
        extracted: c.extracted,
        resolved: c.resolved,
        similarity: c.similarity,
    }
}

/// Whether `answer` is what the content index can give for a file whose
/// hash came out as `hash`: asked through `lookup` when the run may use
/// the index and the hash is known, and nothing otherwise.
pub open spec fn cache_answer<K: Fn(String) -> Option<Record>>(
    lookup: K,
    use_cache: bool,
    hash: Option<String>,
    answer: Option<Record>,
) -> bool {
    if use_cache && hash is Some {
        call_ensures(lookup, (hash->0,), answer)
    } else {
        answer is None
    }
}

/// Whether `r` is what resolving the file at `path`, whose hash came out
/// as `hash`, can come to once the index has not answered: extraction
/// through `extract`, resolution of the identifier through `resolve`,
/// and the title check through `check`, each failure a skip; and a
/// record resolved without conflict stored under the hash through
/// `store` when the hash is known.
pub open spec fn after_index<
    X: Fn(String) -> Result<Extracted, ExtractionError>,
    S: Fn(String) -> Result<(Record, SourceName), Vec<(SourceName, String)>>,
    T: Fn(Option<String>, Record) -> Option<Conflict>,
    P: Fn(String, Record) -> (),
>(
    path: Seq<char>,
    hash: Option<String>,
    extract: X,
    resolve: S,
    check: T,
    store: P,
    r: FileOutcome,
) -> bool {
    exists|xp: String, x: Result<Extracted, ExtractionError>|
        xp@ == path && #[trigger] call_ensures(extract, (xp,), x) && match x {
            Err(e) => r matches FileOutcome::Skipped(reason) && skip_for(e, reason),
            Ok(ex) => exists|ip: String, res: Result<(Record, SourceName), Vec<(SourceName, String)>>|
                ip@ == ex.identifier@ && #[trigger] call_ensures(resolve, (ip,), res) && match res {
                    Err(attempts) => r matches FileOutcome::Skipped(reason) && unresolved_reason(
                        attempts@,
                        reason,
                    ),
                    Ok((record, source)) => exists|c: Option<Conflict>|
                        #[trigger] call_ensures(check, (ex.title, record), c) && match c {
                            Some(conflict) => r == FileOutcome::Skipped(conflict_reason(conflict)),
                            None => {
                                &&& r == FileOutcome::Resolved(
                                    FileRecord {
                                        record,
                                        hash,
                                        source: Some(source),
                                        tier: Some(ex.tier),
                                        cached: false,
                                    },
                                )
                                &&& hash is Some ==> call_ensures(store, (hash->0, record), ())
                            },
                        },
                },
        }
}

/// Whether `r` is what resolving the file at `path` can come to: its
/// hash taken through `hash`; the content index, when the run may use
/// it, answering for the file without opening it; and otherwise
/// [`after_index`].
pub open spec fn resolution_ok<
    H: Fn(String) -> Option<String>,
    K: Fn(String) -> Option<Record>,
    X: Fn(String) -> Result<Extracted, ExtractionError>,
    S: Fn(String) -> Result<(Record, SourceName), Vec<(SourceName, String)>>,
    T: Fn(Option<String>, Record) -> Option<Conflict>,
    P: Fn(String, Record) -> (),
>(
    path: Seq<char>,
    config: ResolveConfig,
    hash: H,
    lookup: K,
    extract: X,
    resolve: S,
    check: T,
    store: P,
    r: FileOutcome,
) -> bool {
    exists|hp: String, h: Option<String>, answer: Option<Record>|
        #![trigger call_ensures(hash, (hp,), h), cache_answer(lookup, config.cache, h, answer)]
        hp@ == path && call_ensures(hash, (hp,), h) && cache_answer(lookup, config.cache, h, answer)
            && match answer {
            Some(record) => r == FileOutcome::Resolved(
                FileRecord { record, hash: h, source: None, tier: None, cached: true },
            ),
            None => after_index(path, h, extract, resolve, check, store, r),
        }
}

/// Resolve the file at `path` to a record, or decide to leave it alone.
///
/// The file's content hash is taken first, through `hash`; when the run
/// may use the content index and the hash is known, `lookup` asks the
/// index, and a record it holds answers without the file being opened.
/// Otherwise `extract` finds an identifier in the file, `resolve` asks
/// the sources for it, and `check` compares the title the file gives
/// with the record; a record that passes is stored in the index through
/// `store` when the hash is known. Every failure is a skip for its own
/// reason.
pub fn resolve_file<H, K, X, S, T, P>(
    path: &str,
    config: &ResolveConfig,
    hash: &H,
    lookup: &K,
    extract: &X,
    resolve: &S,
    check: &T,
    store: &P,
) -> (r: FileOutcome) where
    H: Fn(String) -> Option<String>,
    K: Fn(String) -> Option<Record>,
    X: Fn(String) -> Result<Extracted, ExtractionError>,
    S: Fn(String) -> Result<(Record, SourceName), Vec<(SourceName, String)>>,
    T: Fn(Option<String>, Record) -> Option<Conflict>,
    P: Fn(String, Record) -> (),

    requires
        forall|p: String| call_requires(*hash, (p,)),
        forall|h: String| call_requires(*lookup, (h,)),
        forall|p: String| call_requires(*extract, (p,)),
        forall|i: String| call_requires(*resolve, (i,)),
        forall|t: Option<String>, rec: Record| call_requires(*check, (t, rec)),
        forall|h: String, rec: Record| call_requires(*store, (h, rec)),
    ensures
        resolution_ok(path@, *config, *hash, *lookup, *extract, *resolve, *check, *store, r),
{
    let hp = String::from_str(path);
    let ghost ghp = hp;
    let h = hash(hp);
    assert(call_ensures(*hash, (ghp,), h));
    let answer = if config.cache {
        match &h {
            Some(hv) => {
                let asked = hv.clone();
                let ghost ga = asked;
                let found = lookup(asked);
                assert(call_ensures(*lookup, (ga,), found));
                found
            },
            None => None,
        }
    } else {
        None
    };
    assert(cache_answer(*lookup, config.cache, h, answer));
    if let Some(record) = answer {
        return FileOutcome::Resolved(
            FileRecord { record, hash: h, source: None, tier: None, cached: true },
        );
    }
    let xp = String::from_str(path);
    let ghost gxp = xp;
    let x = extract(xp);
    assert(call_ensures(*extract, (gxp,), x));
    let ex = match x {
        Err(e) => {
            let reason = skipped_for(&e);
            assert(call_ensures(*extract, (gxp,), Err::<Extracted, ExtractionError>(e)));
            return FileOutcome::Skipped(reason);
        },
        Ok(ex) => ex,
    };
    let ghost gex = ex;
    assert(call_ensures(*extract, (gxp,), Ok::<Extracted, ExtractionError>(gex)));
    let Extracted { identifier, tier, title } = ex;
    let ghost gid = identifier;
    let res = resolve(identifier);
    assert(call_ensures(*resolve, (gid,), res));
    let (record, source) = match res {
        Err(attempts) => {
            let reason = unresolvable(&attempts);
            assert(call_ensures(
                *resolve,
                (gid,),
                Err::<(Record, SourceName), Vec<(SourceName, String)>>(attempts),
            ));
            return FileOutcome::Skipped(reason);
        },
        Ok(found) => found,
    };
    assert(call_ensures(
        *resolve,
        (gid,),
        Ok::<(Record, SourceName), Vec<(SourceName, String)>>((record, source)),
    ));
    let checked = copy_record(&record);
    let c = check(title, checked);
    assert(call_ensures(*check, (gex.title, record), c));
    if let Some(conflict) = c {
        let ghost gc = conflict;
        assert(call_ensures(*check, (gex.title, record), Some(gc)));
        return FileOutcome::Skipped(
            SkipReason::Conflict {
                field: conflict.field,
                extracted: conflict.extracted,
                resolved: conflict.resolved,
                similarity: conflict.similarity,
            },
        );
    }
    assert(call_ensures(*check, (gex.title, record), None::<Conflict>));
    if let Some(hv) = &h {
        let key = hv.clone();
        let stored = copy_record(&record);
        store(key, stored);
    }
    FileOutcome::Resolved(
        FileRecord { record, hash: h, source: Some(source), tier: Some(tier), cached: false },
    )
}

/// A run that may use the content index resolves a file the index holds
/// a record for from the index alone: when the file's hash comes out as
/// `h` and the index answers `record` for it, the file is resolved to
/// that record, cached, with no service and no extraction pass.
pub proof fn an_indexed_file_is_answered_by_the_index<
    H: Fn(String) -> Option<String>,
    K: Fn(String) -> Option<Record>,
    X: Fn(String) -> Result<Extracted, ExtractionError>,
    S: Fn(String) -> Result<(Record, SourceName), Vec<(SourceName, String)>>,
    T: Fn(Option<String>, Record) -> Option<Conflict>,
    P: Fn(String, Record) -> (),
>(
    path: Seq<char>,
    config: ResolveConfig,
    hash: H,
    lookup: K,
    extract: X,
    resolve: S,
    check: T,
    store: P,
    h: String,
    record: Record,
    r: FileOutcome,
)
    requires
        config.cache,
        forall|p: String, got: Option<String>|
            p@ == path && #[trigger] call_ensures(hash, (p,), got) ==> got == Some(h),
        forall|got: Option<Record>| #[trigger] call_ensures(lookup, (h,), got) ==> got == Some(record),
        resolution_ok(path, config, hash, lookup, extract, resolve, check, store, r),
    ensures
        r == FileOutcome::Resolved(
            FileRecord { record, hash: Some(h), source: None, tier: None, cached: true },
        ),
{
    let (hp, got, answer) = choose|hp: String, got: Option<String>, answer: Option<Record>|
        #![trigger call_ensures(hash, (hp,), got), cache_answer(lookup, config.cache, got, answer)]
        hp@ == path && call_ensures(hash, (hp,), got) && cache_answer(lookup, config.cache, got, answer)
            && match answer {
            Some(rec) => r == FileOutcome::Resolved(
                FileRecord { record: rec, hash: got, source: None, tier: None, cached: true },
            ),
            None => after_index(path, got, extract, resolve, check, store, r),
        };
    assert(got == Some(h));
    assert(call_ensures(lookup, (h,), answer));
}

/// A run that may not use the content index resolves a file the same
/// whatever the index would answer: the lookup has no say.
pub proof fn without_the_index_the_lookup_has_no_say<
    H: Fn(String) -> Option<String>,
    K: Fn(String) -> Option<Record>,
    L: Fn(String) -> Option<Record>,
    X: Fn(String) -> Result<Extracted, ExtractionError>,
    S: Fn(String) -> Result<(Record, SourceName), Vec<(SourceName, String)>>,
    T: Fn(Option<String>, Record) -> Option<Conflict>,
    P: Fn(String, Record) -> (),
>(
    path: Seq<char>,
    config: ResolveConfig,
    hash: H,
    lookup: K,
    other: L,
    extract: X,
    resolve: S,
    check: T,
    store: P,
    r: FileOutcome,
)
    requires
        !config.cache,
    ensures
        resolution_ok(path, config, hash, lookup, extract, resolve, check, store, r)
            == resolution_ok(path, config, hash, other, extract, resolve, check, store, r),
{
    assert forall|got: Option<String>, answer: Option<Record>|
        cache_answer(lookup, config.cache, got, answer) == cache_answer(
            other,
            config.cache,
            got,
            answer,
        ) by {}
}

/// How many of `outcomes` resolved, and how many were skipped.
pub open spec fn tally(outcomes: Seq<FileOutcome>) -> (nat, nat)
    decreases outcomes.len(),
{
    if outcomes.len() == 0 {
        (0, 0)
    } else {
        let (resolved, skipped) = tally(outcomes.drop_last());
        match outcomes.last() {
            FileOutcome::Resolved(_) => (resolved + 1, skipped),
            FileOutcome::Skipped(_) => (resolved, skipped + 1),
        }
    }
}

proof fn lemma_tally_bounded(outcomes: Seq<FileOutcome>)
    ensures
        tally(outcomes).0 + tally(outcomes).1 == outcomes.len(),
    decreases outcomes.len(),
{
    if outcomes.len() > 0 {
        lemma_tally_bounded(outcomes.drop_last());
    }
}

/// A batch of files resolved: one event per file, in the order given,
/// then the run's close, and the totals it reports.
#[derive(Debug, Clone, PartialEq, Eq)]
pub struct Run {
    pub events: Vec<Event>,
    pub counts: Counts,
}

/// Resolve every file of `paths` as [`resolve_file`] does, one after
/// another, and report each.
///
/// The events are one per file, in the order given, and then the run's
/// close carrying the totals: how many files resolved and how many were
/// skipped.
pub fn resolve_batch<H, K, X, S, T, P>(
    paths: &Vec<String>,
    config: &ResolveConfig,
    hash: &H,
    lookup: &K,
    extract: &X,
    resolve: &S,
    check: &T,
    store: &P,
) -> (run: Run) where
    H: Fn(String) -> Option<String>,
    K: Fn(String) -> Option<Record>,
    X: Fn(String) -> Result<Extracted, ExtractionError>,
    S: Fn(String) -> Result<(Record, SourceName), Vec<(SourceName, String)>>,
    T: Fn(Option<String>, Record) -> Option<Conflict>,
    P: Fn(String, Record) -> (),

    requires
        forall|p: String| call_requires(*hash, (p,)),
        forall|h: String| call_requires(*lookup, (h,)),
        forall|p: String| call_requires(*extract, (p,)),
        forall|i: String| call_requires(*resolve, (i,)),
        forall|t: Option<String>, rec: Record| call_requires(*check, (t, rec)),
        forall|h: String, rec: Record| call_requires(*store, (h, rec)),
    ensures
        run.events@.len() == paths@.len() + 1,
        exists|outcomes: Seq<FileOutcome>|
            {
                &&& outcomes.len() == paths@.len()
                &&& forall|i: int|
                    0 <= i < paths@.len() ==> resolution_ok(
                        paths@[i]@,
                        *config,
                        *hash,
                        *lookup,
                        *extract,
                        *resolve,
                        *check,
                        *store,
                        #[trigger] outcomes[i],
                    ) && reports(run.events@[i], paths@[i]@, outcomes[i])
                &&& run.counts.resolved == tally(outcomes).0
                &&& run.counts.skipped == tally(outcomes).1
            },
        run.counts.renamed == 0,
        run.counts.unmatched == 0,
        run.events@[paths@.len() as int] == (Event::RunFinished { counts: run.counts }),
{
    let mut events: Vec<Event> = Vec::new();
    let mut counts = Counts { resolved: 0, renamed: 0, skipped: 0, unmatched: 0 };
    let ghost mut outcomes: Seq<FileOutcome> = Seq::empty();
    let mut i: usize = 0;
    while i < paths.len()
        invariant
            i <= paths@.len(),
            events@.len() == i,
            outcomes.len() == i,
            forall|p: String| call_requires(*hash, (p,)),
            forall|h: String| call_requires(*lookup, (h,)),
            forall|p: String| call_requires(*extract, (p,)),
            forall|x: String| call_requires(*resolve, (x,)),
            forall|t: Option<String>, rec: Record| call_requires(*check, (t, rec)),
            forall|h: String, rec: Record| call_requires(*store, (h, rec)),
            forall|j: int|
                0 <= j < i ==> resolution_ok(
                    paths@[j]@,
                    *config,
                    *hash,
                    *lookup,
                    *extract,
                    *resolve,
                    *check,
                    *store,
                    #[trigger] outcomes[j],
                ) && reports(events@[j], paths@[j]@, outcomes[j]),
            counts.resolved == tally(outcomes).0,
            counts.skipped == tally(outcomes).1,
            counts.renamed == 0,
            counts.unmatched == 0,
        decreases paths@.len() - i,
    {
        let outcome = resolve_file(
            paths[i].as_str(),
            config,
            hash,
            lookup,
            extract,
            resolve,
            check,
            store,
        );
        proof {
            lemma_tally_bounded(outcomes);
            assert(outcomes.push(outcome).drop_last() =~= outcomes);
        }
        match &outcome {
            FileOutcome::Resolved(_) => counts.resolved = counts.resolved + 1,
            FileOutcome::Skipped(_) => counts.skipped = counts.skipped + 1,
        }
        events.push(event_for(paths[i].as_str(), &outcome));
        proof {
            outcomes = outcomes.push(outcome);
        }
        i = i + 1;
    }
    events.push(Event::RunFinished { counts });
    Run { events, counts }
}

} // verus!
