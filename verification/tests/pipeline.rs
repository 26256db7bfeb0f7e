use ripdrag::pipeline::{
    process_drop, should_exit, stdin_line_step, Interaction, Message, Session, StdinStep,
};
use ripdrag::render::{RenderMode, RenderUnit};

fn strings(items: &[&str]) -> Vec<String> {
    items.iter().map(|s| s.to_string()).collect()
}

#[test]
fn scenario_expanded_seed_two_paths() {
    let mut session = Session::new(RenderMode::Expanded, false);
    session.seed(strings(&["/tmp/a.txt", "/tmp/b.txt"]));
    assert_eq!(session.units().len(), 2);
    let expected = ["/tmp/a.txt", "/tmp/b.txt"];
    for (i, unit) in session.units().iter().enumerate() {
        match unit {
            RenderUnit::Individual { path, export } => {
                assert_eq!(path, expected[i]);
                assert_eq!(export, &strings(&[expected[i]]));
            }
            RenderUnit::Aggregate { .. } => panic!("aggregate in expanded mode"),
        }
    }
}

#[test]
fn scenario_compact_seed_two_paths() {
    let mut session = Session::new(RenderMode::Compact, false);
    session.seed(strings(&["/tmp/a.txt", "/tmp/b.txt"]));
    assert_eq!(session.units().len(), 1);
    let unit = &session.units()[0];
    assert_eq!(unit.label(false), Some("2 elements".to_string()));
    assert_eq!(
        unit.export_payload(),
        "file:///tmp/a.txt\nfile:///tmp/b.txt"
    );
}

#[test]
fn scenario_compact_first_stdin_path() {
    let mut session = Session::new(RenderMode::Compact, false);
    session.seed(strings(&[]));
    assert!(session.units().is_empty());

    let step = stdin_line_step("/tmp/c.txt".to_string(), true, false);
    let path = match step {
        StdinStep::Enqueue { path, notice } => {
            assert_eq!(notice, "Adding: /tmp/c.txt");
            path
        }
        _ => panic!("existing path must be enqueued"),
    };
    session.handle_message(Message::StdinPath(path));
    assert_eq!(session.units().len(), 1);
    assert_eq!(session.units()[0].label(false), Some("1 elements".to_string()));
}

#[test]
fn scenario_drop_payload_printed_verbatim() {
    let outcome = process_drop("file:///tmp/d.txt\nfile:///tmp/e.txt", false, false);
    assert_eq!(
        outcome.stdout_lines,
        strings(&["file:///tmp/d.txt", "file:///tmp/e.txt"])
    );
    assert!(outcome.staged_batch.is_none());
}

#[test]
fn scenario_drop_payload_printed_resolved() {
    let outcome = process_drop("file:///tmp/d.txt\nfile:///tmp/e.txt", true, false);
    assert_eq!(outcome.stdout_lines, strings(&["/tmp/d.txt", "/tmp/e.txt"]));
}

#[test]
fn scenario_exit_after_completed_export() {
    assert!(should_exit(true, Interaction::ExportCompleted));
    assert!(should_exit(true, Interaction::ImportCompleted));
    assert!(!should_exit(true, Interaction::Aborted));
    assert!(!should_exit(false, Interaction::ExportCompleted));
}

#[test]
fn stdin_step_skips_missing_path_quietly() {
    let step = stdin_line_step("/nope".to_string(), false, false);
    assert!(matches!(step, StdinStep::Skip));
}

#[test]
fn stdin_step_reports_missing_path_when_verbose() {
    let step = stdin_line_step("/nope".to_string(), false, true);
    match step {
        StdinStep::Diagnostic(d) => {
            assert_eq!(d, "/nope : no such file or directory");
        }
        _ => panic!("missing path must be diagnosed in verbose mode"),
    }
}

#[test]
fn dropped_batch_is_staged_when_kept() {
    let mut session = Session::new(RenderMode::Compact, false);
    session.seed(strings(&[]));
    let outcome = process_drop("file:///tmp/d.txt\nfile:///tmp/e.txt", false, true);
    let batch = outcome.staged_batch.expect("keep must hand the batch back");
    session.handle_message(Message::DropPaths(batch));
    assert_eq!(session.staged.snapshot(), strings(&["/tmp/d.txt", "/tmp/e.txt"]));
    assert_eq!(session.units().len(), 1);
    assert_eq!(session.units()[0].label(false), Some("2 elements".to_string()));
}

#[test]
fn empty_drop_batch_stages_and_renders_nothing() {
    let mut session = Session::new(RenderMode::Compact, false);
    session.seed(strings(&[]));
    let outcome = process_drop("\u{1}garbage", true, true);
    assert!(outcome.stdout_lines.is_empty());
    let batch = outcome.staged_batch.expect("keep must hand the batch back");
    assert!(batch.is_empty());
    session.handle_message(Message::DropPaths(batch));
    assert!(session.units().is_empty());
    assert_eq!(session.staged.snapshot(), strings(&[]));
}

#[test]
fn messages_apply_in_delivery_order() {
    let mut session = Session::new(RenderMode::Expanded, false);
    session.seed(strings(&["/tmp/a"]));
    session.handle_message(Message::StdinPath("/tmp/b".to_string()));
    session.handle_message(Message::DropPaths(strings(&["/tmp/c", "/tmp/d"])));
    assert_eq!(
        session.staged.snapshot(),
        strings(&["/tmp/a", "/tmp/b", "/tmp/c", "/tmp/d"])
    );
    assert_eq!(session.units().len(), 4);
}
