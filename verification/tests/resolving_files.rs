use std::cell::RefCell;

use borax::config::SourceName;
use borax::event::{Attempt, DuplicateReason, Event, SkipReason};
use borax::journal::{last_run, Entry, FileJournal, RunId};
use borax::ledger::{duplicate_is_live, Duplicate};
use borax::pipeline::{
    resolve_batch, resolve_file, Conflict, ExtractionError, Extracted, FileOutcome, FileRecord,
    ResolveConfig,
};
use borax::record::{EntryType, Record};
use borax::runlog::latest_apply;
use borax::session::{confirm, Interaction};
use borax::text::{contains_char, owned};

fn text(s: &str) -> String {
    s.to_string()
}

fn record(title: &str) -> Record {
    Record {
        doi: Some(text("10.1021/jacs.4c01234")),
        arxiv: None,
        pmid: None,
        isbn: None,
        title: Some(text(title)),
        entry_type: EntryType::Article,
    }
}

fn with_cache() -> ResolveConfig {
    ResolveConfig { page_limit: 2, cache: true }
}

fn found(path: String) -> Result<Extracted, ExtractionError> {
    Ok(Extracted {
        identifier: format!("id-of-{path}"),
        tier: text("metadata"),
        title: Some(text("An Awesome Paper")),
    })
}

fn answered(_: String) -> Result<(Record, SourceName), Vec<(SourceName, String)>> {
    Ok((record("An Awesome Paper"), SourceName::Crossref))
}

fn no_conflict(_: Option<String>, _: Record) -> Option<Conflict> {
    None
}

#[test]
fn the_content_index_answers_without_opening_the_file() {
    let opened = RefCell::new(0);
    let outcome = resolve_file(
        "a.pdf",
        &with_cache(),
        &|_| Some(text("abc")),
        &|_| Some(record("Indexed")),
        &|path| {
            *opened.borrow_mut() += 1;
            found(path)
        },
        &answered,
        &no_conflict,
        &|_, _| (),
    );
    assert_eq!(
        outcome,
        FileOutcome::Resolved(FileRecord {
            record: record("Indexed"),
            hash: Some(text("abc")),
            source: None,
            tier: None,
            cached: true,
        })
    );
    assert_eq!(*opened.borrow(), 0);
}

#[test]
fn a_run_without_the_index_resolves_and_stores_under_the_hash() {
    let asked = RefCell::new(Vec::new());
    let stored = RefCell::new(Vec::new());
    let outcome = resolve_file(
        "a.pdf",
        &ResolveConfig { page_limit: 2, cache: false },
        &|_| Some(text("abc")),
        &|_| Some(record("Indexed")),
        &found,
        &|identifier| {
            asked.borrow_mut().push(identifier);
            answered(String::new())
        },
        &no_conflict,
        &|hash, record| stored.borrow_mut().push((hash, record)),
    );
    assert_eq!(
        outcome,
        FileOutcome::Resolved(FileRecord {
            record: record("An Awesome Paper"),
            hash: Some(text("abc")),
            source: Some(SourceName::Crossref),
            tier: Some(text("metadata")),
            cached: false,
        })
    );
    assert_eq!(*asked.borrow(), vec![text("id-of-a.pdf")]);
    assert_eq!(*stored.borrow(), vec![(text("abc"), record("An Awesome Paper"))]);
}

#[test]
fn a_file_without_a_hash_is_resolved_but_not_stored() {
    let stored = RefCell::new(0);
    let outcome = resolve_file(
        "a.pdf",
        &with_cache(),
        &|_| None,
        &|_| Some(record("Indexed")),
        &found,
        &answered,
        &no_conflict,
        &|_, _| *stored.borrow_mut() += 1,
    );
    assert!(matches!(outcome, FileOutcome::Resolved(FileRecord { cached: false, hash: None, .. })));
    assert_eq!(*stored.borrow(), 0);
}

#[test]
fn an_encrypted_file_is_unreadable() {
    let outcome = resolve_file(
        "locked.pdf",
        &with_cache(),
        &|_| None,
        &|_| None,
        &|_| Err(ExtractionError::Encrypted),
        &answered,
        &no_conflict,
        &|_, _| (),
    );
    assert_eq!(
        outcome,
        FileOutcome::Skipped(SkipReason::Unreadable { message: text("the PDF is encrypted") })
    );
}

#[test]
fn extraction_failures_are_skips_for_their_own_reasons() {
    let skip = |error: ExtractionError| {
        resolve_file(
            "a.pdf",
            &with_cache(),
            &|_| None,
            &|_| None,
            &|_| Err(error.clone()),
            &answered,
            &no_conflict,
            &|_, _| (),
        )
    };
    assert_eq!(
        skip(ExtractionError::Unreadable { message: text("not a PDF") }),
        FileOutcome::Skipped(SkipReason::Unreadable { message: text("not a PDF") })
    );
    assert_eq!(skip(ExtractionError::NoTextLayer), FileOutcome::Skipped(SkipReason::NoIdentifier));
    assert_eq!(
        skip(ExtractionError::NoIdentifierFound),
        FileOutcome::Skipped(SkipReason::NoIdentifier)
    );
}

#[test]
fn an_unresolvable_identifier_keeps_what_each_source_said() {
    let outcome = resolve_file(
        "a.pdf",
        &with_cache(),
        &|_| None,
        &|_| None,
        &found,
        &|_| {
            Err(vec![
                (SourceName::Crossref, text("not found")),
                (SourceName::OpenAlex, text("timed out")),
            ])
        },
        &no_conflict,
        &|_, _| (),
    );
    assert_eq!(
        outcome,
        FileOutcome::Skipped(SkipReason::Unresolvable {
            attempts: vec![
                Attempt { source: text("crossref"), error: text("not found") },
                Attempt { source: text("openalex"), error: text("timed out") },
            ],
        })
    );
}

#[test]
fn a_title_that_disagrees_is_a_conflict_and_nothing_is_stored() {
    let stored = RefCell::new(0);
    let checked = RefCell::new(Vec::new());
    let outcome = resolve_file(
        "a.pdf",
        &with_cache(),
        &|_| Some(text("abc")),
        &|_| None,
        &found,
        &answered,
        &|title, record: Record| {
            checked.borrow_mut().push((title, record.title));
            Some(Conflict {
                field: text("title"),
                extracted: text("An Awesome Paper"),
                resolved: text("Something Else"),
                similarity: 12,
            })
        },
        &|_, _| *stored.borrow_mut() += 1,
    );
    assert_eq!(
        outcome,
        FileOutcome::Skipped(SkipReason::Conflict {
            field: text("title"),
            extracted: text("An Awesome Paper"),
            resolved: text("Something Else"),
            similarity: 12,
        })
    );
    assert_eq!(
        *checked.borrow(),
        vec![(Some(text("An Awesome Paper")), Some(text("An Awesome Paper")))]
    );
    assert_eq!(*stored.borrow(), 0);
}

#[test]
fn a_batch_reports_each_file_in_order_then_the_totals() {
    let paths = vec![text("a.pdf"), text("b.pdf"), text("c.pdf")];
    let run = resolve_batch(
        &paths,
        &with_cache(),
        &|_| None,
        &|_| None,
        &|path: String| match path.as_str() {
            "b.pdf" => Err(ExtractionError::NoIdentifierFound),
            _ => found(path),
        },
        &answered,
        &no_conflict,
        &|_, _| (),
    );
    assert_eq!(run.events.len(), 4);
    assert!(matches!(&run.events[0], Event::Resolved { path, .. } if path == "a.pdf"));
    assert_eq!(
        run.events[1],
        Event::Skipped { path: text("b.pdf"), reason: SkipReason::NoIdentifier }
    );
    assert!(matches!(&run.events[2], Event::Resolved { path, .. } if path == "c.pdf"));
    assert_eq!(run.counts.resolved, 2);
    assert_eq!(run.counts.skipped, 1);
    assert_eq!(run.counts.renamed, 0);
    assert_eq!(run.events[3], Event::RunFinished { counts: run.counts });
}

#[test]
fn an_empty_batch_is_only_the_close() {
    let run = resolve_batch(
        &Vec::new(),
        &with_cache(),
        &|_| None,
        &|_| None,
        &found,
        &answered,
        &no_conflict,
        &|_, _| (),
    );
    assert_eq!(run.counts.resolved + run.counts.skipped, 0);
    assert_eq!(run.events, vec![Event::RunFinished { counts: run.counts }]);
}

#[test]
fn a_duplicate_is_live_only_while_its_file_is_there() {
    let duplicate = Duplicate {
        reason: DuplicateReason::Content,
        existing_path: text("papers/Smith 2020.pdf"),
    };
    let asked = RefCell::new(Vec::new());
    let live = duplicate_is_live(&duplicate, "/library", |path| {
        asked.borrow_mut().push(path);
        true
    });
    assert!(live);
    assert_eq!(*asked.borrow(), vec![text("/library/papers/Smith 2020.pdf")]);
    assert!(!duplicate_is_live(&duplicate, "/library", |_| false));
}

#[test]
fn the_journal_sits_under_the_state_root() {
    let journal = FileJournal::open_default(Some(text("/state/borax"))).unwrap();
    assert_eq!(journal.path(), "/state/borax/renames.jsonl");
    assert!(FileJournal::open_default(None).is_none());
}

fn entry(run: &str, from: &str) -> Entry {
    Entry {
        run: RunId::new(run),
        from: text(from),
        to: format!("{from}.moved"),
        hash: text("h"),
        at: text("t"),
    }
}

#[test]
fn the_last_run_is_the_trailing_entries_of_the_last_entry_s_run() {
    let entries = vec![entry("r1", "a"), entry("r2", "b"), entry("r1", "c"), entry("r1", "d")];
    assert_eq!(last_run(&entries), vec![entry("r1", "c"), entry("r1", "d")]);
    assert_eq!(last_run(&vec![entry("r1", "a")]), vec![entry("r1", "a")]);
    assert!(last_run(&Vec::new()).is_empty());
}

#[test]
fn the_latest_apply_log_is_the_greatest_apply_name() {
    let names = vec![
        text("20240101T000000Z-rename-apply.jsonl"),
        text("20240301T000000Z-rename-preview.jsonl"),
        text("20240201T000000Z-rename-apply.jsonl"),
        text("notes.txt"),
    ];
    assert_eq!(latest_apply(&names), Some(text("20240201T000000Z-rename-apply.jsonl")));
    assert_eq!(latest_apply(&vec![text("20240301T000000Z-rename-preview.jsonl")]), None);
}

#[test]
fn a_forbidden_question_is_never_put_and_never_granted() {
    let asked = RefCell::new(0);
    let answer = confirm(Interaction::Forbidden, || {
        *asked.borrow_mut() += 1;
        true
    });
    assert!(!answer);
    assert_eq!(*asked.borrow(), 0);
    assert!(confirm(Interaction::Allowed, || true));
    assert!(!confirm(Interaction::Allowed, || false));
}

#[test]
fn owned_strings_and_character_search() {
    assert_eq!(owned("borax"), "borax");
    assert!(contains_char("a/b", '/'));
    assert!(!contains_char("ab", '/'));
    assert!(!contains_char("", '/'));
}
