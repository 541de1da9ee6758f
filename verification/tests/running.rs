use borax::cli::{Command, LedgerAction};
use borax::dispatch::{opening, preparation, Preparation, Stream};
use borax::event::{Counts, Diagnostic, Event, Level, SkipReason};
use borax::renaming::{reach, widened};
use borax::runlog::Destination;
use borax::session::Outcome;

fn text(s: &str) -> String {
    s.to_string()
}

fn warning(message: &str) -> Diagnostic {
    Diagnostic { level: Level::Warning, message: text(message) }
}

fn apply_rename() -> Command {
    Command::rename(vec![text("a.pdf")], true)
}

#[test]
fn what_each_command_settles_first() {
    let root = Some(text("/lib"));
    assert_eq!(preparation(&Command::config(), &None, &None), Ok(Preparation::Unchecked));
    assert_eq!(
        preparation(&Command::Ledger { action: LedgerAction::rebuild() }, &root, &None),
        Ok(Preparation::RebuildLedger { root: text("/lib") })
    );
    let outside = preparation(&Command::Ledger { action: LedgerAction::rebuild() }, &None, &None);
    assert_eq!(
        outside.unwrap_err().message,
        "this directory is in no collection, so there is no ledger to rebuild"
    );
    assert_eq!(
        preparation(&Command::cache(true), &None, &Some(text("/c"))),
        Ok(Preparation::ReportCache { root: text("/c"), clear: true })
    );
    assert_eq!(
        preparation(&Command::cache(false), &None, &None).unwrap_err().message,
        "this system names no cache directory"
    );
    assert_eq!(
        preparation(&apply_rename(), &None, &None),
        Ok(Preparation::Group { paths: vec![text("a.pdf")], reads_ledger: true })
    );
    assert_eq!(
        preparation(&Command::bib(vec![text("b.pdf")]), &None, &None),
        Ok(Preparation::Group { paths: vec![text("b.pdf")], reads_ledger: false })
    );
}

#[test]
fn a_failed_check_refuses_the_run_with_that_diagnostic_alone() {
    let refusal = Diagnostic { level: Level::Error, message: text("no") };
    let destination = Some(Destination { path: text("/runs/x.jsonl"), mandatory: true });
    assert_eq!(
        opening(Err(refusal.clone()), &apply_rename(), &destination, None),
        Err((vec![refusal], Outcome::Fatal))
    );
}

#[test]
fn an_apply_run_with_nowhere_to_record_is_refused() {
    let opened = opening(Ok(Some(warning("ledger unreadable"))), &apply_rename(), &None, None);
    let (diagnostics, outcome) = opened.unwrap_err();
    assert_eq!(outcome, Outcome::Fatal);
    assert_eq!(diagnostics.len(), 2);
    assert_eq!(diagnostics[0], warning("ledger unreadable"));
    assert_eq!(diagnostics[1].level, Level::Error);
    assert!(diagnostics[1].message.starts_with("--apply needs somewhere to record the run"));
    assert_eq!(opening(Ok(None), &Command::config(), &None, None), Ok((vec![], false)));
}

#[test]
fn an_unopened_log_refuses_a_run_only_when_it_depends_on_it() {
    let mandatory = Some(Destination { path: text("/runs/x.jsonl"), mandatory: true });
    let (diagnostics, outcome) =
        opening(Ok(None), &apply_rename(), &mandatory, Some(Err(text("read-only")))).unwrap_err();
    assert_eq!(outcome, Outcome::Fatal);
    assert_eq!(
        diagnostics,
        vec![Diagnostic {
            level: Level::Error,
            message: text("the run log \"/runs/x.jsonl\" could not be written: read-only"),
        }]
    );
    let optional = Some(Destination { path: text("/runs/y.jsonl"), mandatory: false });
    assert_eq!(
        opening(Ok(None), &Command::config(), &optional, Some(Err(text("full")))),
        Ok((
            vec![warning("the run log \"/runs/y.jsonl\" could not be written: full")],
            false
        ))
    );
    assert_eq!(opening(Ok(None), &Command::config(), &optional, Some(Ok(()))), Ok((vec![], true)));
}

#[test]
fn the_stream_closes_with_the_totals_of_what_was_reported() {
    let started = Event::RunStarted {
        command: text("resolve"),
        version: text("0.1.0"),
        applying: false,
        tables: Vec::new(),
    };
    let mut stream = Stream::open(&started);
    let skipped = Event::Skipped { path: text("a.pdf"), reason: SkipReason::NoIdentifier };
    assert!(stream.has_room(&skipped));
    stream.report(&skipped);
    stream.report(&Event::Sidecar { path: text("b.pdf"), target: text("b.pdf.bib") });
    let (finished, outcome) = stream.close();
    assert_eq!(
        finished,
        Event::RunFinished { counts: Counts { resolved: 0, renamed: 0, skipped: 1, unmatched: 0 } }
    );
    assert_eq!(outcome, Outcome::Partial);
    let (finished, outcome) = Stream::open(&started).close();
    assert_eq!(finished, Event::RunFinished { counts: Counts::default() });
    assert_eq!(outcome, Outcome::Success);
}

#[test]
fn each_subdirectory_a_target_names_is_listed_once() {
    let mut listed = Vec::new();
    assert_eq!(reach(&mut listed, "Smith 2020.pdf"), None);
    assert_eq!(reach(&mut listed, "2020/Smith.pdf"), Some(text("2020")));
    assert_eq!(reach(&mut listed, "2020/Jones.pdf"), None);
    assert_eq!(reach(&mut listed, "2021/a/Jones.pdf"), Some(text("2021/a")));
    assert_eq!(listed, vec![text("2020"), text("2021/a")]);
    assert_eq!(
        widened("2020", &vec![(text("Smith.pdf"), Some(text("h1"))), (text("notes"), None)]),
        vec![(text("2020/Smith.pdf"), Some(text("h1"))), (text("2020/notes"), None)]
    );
}
