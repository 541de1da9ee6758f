use std::cell::RefCell;

use borax::cli::Command;
use borax::event::{Event, SkipReason};
use borax::journal::RunId;
use borax::ledger::{collection_relative, relative_to};
use borax::renaming::{apply_renames, counts_for, named, Applying, PlannedRename};
use borax::runlog::{destination, log_name, state_root};
use borax::undo::{moves_in, revert, undo_moves, Move, Refusal, UndoOutcome, Unrevertible};

fn text(s: &str) -> String {
    s.to_string()
}

fn renamed_line(path: &str, target: &str, hash: &str) -> String {
    format!(
        "{{\"schema\":1,\"event\":\"renamed\",\"path\":\"{path}\",\"target\":\"{target}\",\"hash\":\"{hash}\"}}"
    )
}

#[test]
fn a_run_log_replays_its_renames_in_order() {
    let log = [
        "{\"schema\":1,\"event\":\"run-started\",\"command\":\"rename\"}".to_string(),
        renamed_line("a.pdf", "x.pdf", "h1"),
        String::new(),
        renamed_line("b.pdf", "y.pdf", "h2"),
        "{\"schema\":1,\"event\":\"run-finished\"}".to_string(),
    ]
    .join("\n");
    let moves = moves_in(&log).unwrap();
    assert_eq!(
        moves,
        vec![
            Move { from: text("a.pdf"), to: text("x.pdf"), hash: text("h1") },
            Move { from: text("b.pdf"), to: text("y.pdf"), hash: text("h2") },
        ]
    );
}

#[test]
fn a_log_of_another_schema_is_refused() {
    let log = "{\"schema\":2,\"event\":\"renamed\"}";
    assert_eq!(moves_in(log), Err(Refusal::Schema { found: 2 }));
    assert_eq!(moves_in("{\"event\":\"renamed\"}"), Err(Refusal::Schema { found: 0 }));
}

#[test]
fn a_line_that_is_not_json_is_refused() {
    assert!(matches!(moves_in("not json"), Err(Refusal::Unreadable { .. })));
    assert_eq!(
        moves_in("{\"schema\":1,\"event\":\"renamed\",\"path\":\"a\",\"target\":\"b\"}"),
        Err(Refusal::Unreadable { message: text("missing field `hash`") })
    );
}

#[test]
fn a_renamed_field_of_the_wrong_type_is_refused_as_such() {
    assert_eq!(
        moves_in("{\"schema\":1,\"event\":\"renamed\",\"path\":3,\"target\":\"b\",\"hash\":\"h\"}"),
        Err(Refusal::Unreadable { message: text("invalid type: integer `3`, expected path string") })
    );
    assert_eq!(
        moves_in("{\"schema\":1,\"event\":\"renamed\",\"path\":\"a\",\"hash\":false}"),
        Err(Refusal::Unreadable { message: text("invalid type: boolean `false`, expected a string") })
    );
    assert_eq!(
        moves_in("{\"schema\":1,\"event\":\"renamed\",\"target\":\"b\",\"hash\":\"h\"}"),
        Err(Refusal::Unreadable { message: text("missing field `path`") })
    );
}

#[test]
fn an_empty_log_has_nothing_to_undo() {
    assert_eq!(moves_in(""), Ok(Vec::new()));
    assert_eq!(moves_in("\n\n"), Ok(Vec::new()));
}

fn recorded() -> Move {
    Move { from: text("/lib/a.pdf"), to: text("/lib/x.pdf"), hash: text("h1") }
}

#[test]
fn a_move_whose_file_is_intact_is_reverted() {
    let moved = RefCell::new(Vec::new());
    let hash_at = |_p: String| Some(text("h1"));
    let occupied = |_d: String, _n: String| false;
    let rename = |a: String, b: String| -> Result<(), String> {
        moved.borrow_mut().push((a, b));
        Ok(())
    };
    let outcome = revert(&recorded(), &hash_at, &occupied, &rename);
    assert_eq!(outcome, UndoOutcome::Reverted { from: text("/lib/x.pdf"), to: text("/lib/a.pdf") });
    assert_eq!(*moved.borrow(), vec![(text("/lib/x.pdf"), text("/lib/a.pdf"))]);
    assert_eq!(
        borax::undo::event_for(&outcome),
        Event::Reverted { path: text("/lib/x.pdf"), target: text("/lib/a.pdf") }
    );
}

#[test]
fn a_move_is_left_when_undoing_it_would_lose_something() {
    let never = |_a: String, _b: String| -> Result<(), String> { panic!("must not move") };
    let free = |_d: String, _n: String| false;
    let gone = |_p: String| None;
    assert_eq!(
        revert(&recorded(), &gone, &free, &never),
        UndoOutcome::Left { path: text("/lib/x.pdf"), reason: Unrevertible::Missing }
    );
    let changed = |_p: String| Some(text("other"));
    assert_eq!(
        revert(&recorded(), &changed, &free, &never),
        UndoOutcome::Left { path: text("/lib/x.pdf"), reason: Unrevertible::ContentChanged }
    );
    let same = |_p: String| Some(text("h1"));
    let taken = |_d: String, n: String| n == "a.pdf";
    let left = revert(&recorded(), &same, &taken, &never);
    assert_eq!(left, UndoOutcome::Left { path: text("/lib/x.pdf"), reason: Unrevertible::OriginalTaken });
    assert_eq!(
        borax::undo::event_for(&left),
        Event::Skipped { path: text("/lib/x.pdf"), reason: SkipReason::OriginalTaken }
    );
}

#[test]
fn undoing_reverts_the_last_move_first() {
    let order = RefCell::new(Vec::new());
    let hash_at = |p: String| Some(if p.ends_with("x.pdf") { text("h1") } else { text("h2") });
    let free = |_d: String, _n: String| false;
    let rename = |a: String, _b: String| -> Result<(), String> {
        order.borrow_mut().push(a);
        Ok(())
    };
    let moves = vec![
        recorded(),
        Move { from: text("/lib/b.pdf"), to: text("/lib/y.pdf"), hash: text("h2") },
    ];
    let outcomes = undo_moves(&moves, &hash_at, &free, &rename);
    assert_eq!(outcomes.len(), 2);
    assert_eq!(*order.borrow(), vec![text("/lib/y.pdf"), text("/lib/x.pdf")]);
}

#[test]
fn a_preview_moves_nothing() {
    let plan = vec![
        PlannedRename::Rename { path: text("a.pdf"), target: text("b.pdf") },
        PlannedRename::AlreadyNamed { path: text("c.pdf") },
        PlannedRename::TargetTaken { path: text("d.pdf"), target: text("e.pdf") },
        PlannedRename::Unnameable { path: text("f.pdf") },
    ];
    let never = |_a: String, _b: String| -> Result<(), String> { panic!("a preview must not move") };
    let events = apply_renames(&plan, &never, false, &vec![Some(text("h")), None, None, None]);
    assert_eq!(
        events,
        vec![
            Event::Planned { path: text("a.pdf"), target: text("b.pdf") },
            Event::Skipped { path: text("c.pdf"), reason: SkipReason::AlreadyNamed },
            Event::Skipped {
                path: text("d.pdf"),
                reason: SkipReason::TargetTaken { target: text("e.pdf") }
            },
            Event::Skipped { path: text("f.pdf"), reason: SkipReason::Unnameable },
        ]
    );
    let counts = counts_for(&events);
    assert_eq!((counts.renamed, counts.skipped), (0, 3));
}

#[test]
fn applying_moves_what_the_preview_planned() {
    let moved = RefCell::new(Vec::new());
    let rename = |a: String, b: String| -> Result<(), String> {
        moved.borrow_mut().push((a, b));
        Ok(())
    };
    let plan = vec![PlannedRename::Rename { path: text("a.pdf"), target: text("b.pdf") }];
    let events = apply_renames(&plan, &rename, true, &vec![Some(text("h"))]);
    assert_eq!(
        events,
        vec![Event::Renamed { path: text("a.pdf"), target: text("b.pdf"), hash: text("h") }]
    );
    assert_eq!(*moved.borrow(), vec![(text("a.pdf"), text("b.pdf"))]);
}

#[test]
fn a_move_that_cannot_be_recorded_is_not_made() {
    let never = |_a: String, _b: String| -> Result<(), String> { panic!("must not move") };
    let mut applying = Applying::new(true);
    let event = applying.carry_out(
        &PlannedRename::Rename { path: text("a.pdf"), target: text("b.pdf") },
        None,
        &never,
    );
    assert_eq!(
        event,
        Event::Skipped {
            path: text("a.pdf"),
            reason: SkipReason::Unrecordable { message: text("the file's content hash is unknown") }
        }
    );
}

#[test]
fn a_failed_move_is_reported() {
    let refuse = |_a: String, _b: String| -> Result<(), String> { Err(text("denied")) };
    let mut applying = Applying::new(true);
    let event = applying.carry_out(
        &PlannedRename::Rename { path: text("a.pdf"), target: text("b.pdf") },
        Some(text("h")),
        &refuse,
    );
    assert_eq!(
        event,
        Event::Skipped { path: text("a.pdf"), reason: SkipReason::RenameFailed { message: text("denied") } }
    );
}

#[test]
fn a_rendered_name_keeps_the_file_extension() {
    assert_eq!(named("papers/x.pdf", "smith2024").as_deref(), Some("smith2024.pdf"));
    assert_eq!(named("papers/x", "smith2024").as_deref(), Some("smith2024"));
    assert_eq!(named("papers/x.pdf", ""), None);
}

#[test]
fn run_logs_are_named_for_time_command_and_phase() {
    assert_eq!(log_name("2024-01-02T03:04:05Z", "ledger rebuild", true), "20240102T030405Z-ledger-rebuild-apply.jsonl");
    assert_eq!(log_name("t", "rename", false), "t-rename-dry.jsonl");
}

#[test]
fn an_applying_rename_must_keep_a_log() {
    let command = Command::rename(vec![text("a.pdf")], true);
    let inside = destination(&command, true, false, "T1", Some("/lib"), None).unwrap();
    assert_eq!(inside.path, "/lib/.borax/runs/T1-rename-apply.jsonl");
    assert!(inside.mandatory);
    let outside = destination(&command, true, false, "T1", None, Some("/state")).unwrap();
    assert_eq!(outside.path, "/state/runs/T1-rename-apply.jsonl");
    assert!(destination(&command, true, false, "T1", None, None).is_none());
    let preview = Command::rename(vec![text("a.pdf")], false);
    assert!(destination(&preview, false, false, "T1", Some("/lib"), None).is_none());
    assert!(destination(&preview, false, true, "T1", None, Some("/state")).is_none());
}

#[test]
fn the_state_root_follows_the_xdg_rules() {
    let env = vec![(text("HOME"), text("/h"))];
    assert_eq!(state_root(&env).as_deref(), Some("/h/.local/state/borax/v1"));
}

#[test]
fn ledger_paths_are_relative_to_the_collection() {
    assert_eq!(collection_relative("/lib", "/lib/papers/a.pdf").as_deref(), Some("papers/a.pdf"));
    assert_eq!(collection_relative("/lib", "/library/a.pdf"), None);
    assert_eq!(collection_relative("/a/b", "/a//b/c").as_deref(), Some("c"));
    assert_eq!(collection_relative("/a/b", "/a/b/c/").as_deref(), Some("c"));
    assert_eq!(collection_relative("/a/b/", "/a/b/./c//d").as_deref(), Some("c/d"));
    assert_eq!(collection_relative("/a/b", "/a/b").as_deref(), Some(""));
    assert_eq!(collection_relative("/a/b", "a/b/c"), None);
    assert_eq!(relative_to("/lib", "papers/a.pdf"), "/lib/papers/a.pdf");
    assert_eq!(RunId::new("T1").as_str(), "T1");
}
