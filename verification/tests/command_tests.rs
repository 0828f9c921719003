use vision::buffer::Buffer;
use vision::command::{Command, CommandError, RunError, RunOutcome, Run};
use vision::history::Action;

fn chars(s: &str) -> Vec<char> {
    s.chars().collect()
}

fn modified_buffer(path: Option<&str>) -> Buffer {
    let mut b = Buffer::new(path.map(|p| p.to_string()));
    b.insert_char(0, 0, 'a', Action::Do);
    assert!(b.modified);
    b
}

#[test]
fn parse_recognizes_the_four_commands() {
    assert!(matches!(Command::parse(&chars("q")), Ok(Command::Quit(_))));
    assert!(matches!(Command::parse(&chars("q!")), Ok(Command::Quit(_))));
    assert!(matches!(Command::parse(&chars("w")), Ok(Command::Save(_))));
    assert!(matches!(Command::parse(&chars("wq")), Ok(Command::SaveQuit(_))));
}

#[test]
fn parse_rejects_unknown_text() {
    assert_eq!(Command::parse(&chars("x")).err(), Some(CommandError::UnknownCommand));
    assert_eq!(Command::parse(&chars("")).err(), Some(CommandError::UnknownCommand));
    assert_eq!(Command::parse(&chars("quit")).err(), Some(CommandError::UnknownCommand));
    assert_eq!(Command::parse(&chars("w q")).err(), Some(CommandError::UnknownCommand));
}

// `q` on a modified, unsaved document fails with the unsaved-changes error;
// `q!` on the same document succeeds unconditionally.
#[test]
fn quit_blocked_by_unsaved_changes_unless_forced() {
    let mut b = modified_buffer(None);
    let q = Command::parse(&chars("q")).unwrap();
    assert_eq!(q.run(&mut b), Err(RunError::QuitOnModified));
    assert!(b.modified);
    let qf = Command::parse(&chars("q!")).unwrap();
    assert_eq!(qf.run(&mut b), Ok(RunOutcome::Quit));
    assert!(b.modified);
}

#[test]
fn quit_on_clean_buffer_succeeds() {
    let mut b = Buffer::new(None);
    let q = Command::parse(&chars("q")).unwrap();
    assert_eq!(q.run(&mut b), Ok(RunOutcome::Quit));
}

#[test]
fn save_without_path_fails() {
    let mut b = modified_buffer(None);
    let w = Command::parse(&chars("w")).unwrap();
    assert_eq!(w.run(&mut b), Err(RunError::UnknownPath));
    assert!(b.modified);
}

#[test]
fn save_clears_modified_flag() {
    let mut b = modified_buffer(Some("f.txt"));
    let w = Command::parse(&chars("w")).unwrap();
    assert_eq!(w.run(&mut b), Ok(RunOutcome::Write));
    assert!(!b.modified);
    // saving an unmodified buffer asks for no write
    assert_eq!(w.run(&mut b), Ok(RunOutcome::Continue));
}

#[test]
fn save_quit_runs_save_then_quit() {
    let mut b = modified_buffer(Some("f.txt"));
    let wq = Command::parse(&chars("wq")).unwrap();
    assert_eq!(wq.run(&mut b), Ok(RunOutcome::WriteQuit));
    assert!(!b.modified);

    let mut clean = Buffer::new(Some("f.txt".to_string()));
    assert_eq!(wq.run(&mut clean), Ok(RunOutcome::Quit));

    let mut pathless = modified_buffer(None);
    assert_eq!(wq.run(&mut pathless), Err(RunError::UnknownPath));
    assert!(pathless.modified);
}

#[test]
fn run_trait_matches_inherent_behaviour() {
    let mut b = modified_buffer(None);
    if let Ok(Command::Quit(q)) = Command::parse(&chars("q")) {
        assert_eq!(Run::run(&q, &mut b), Err(RunError::QuitOnModified));
    } else {
        panic!("expected a quit command");
    }
}
