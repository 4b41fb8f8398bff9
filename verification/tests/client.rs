use glacier::client::{
    install_command, installing_line, rebuilding_line, upload_message, InstallLog, SwitchEvent,
    SwitchSession, SwitchStage, SwitchTurn,
};
use glacier::log::UiAction;
use glacier::style::Span;

fn text(spans: &[Span]) -> String {
    spans.iter().map(|s| s.text.as_str()).collect()
}

fn lines(turn: &SwitchTurn) -> Vec<(bool, String)> {
    turn.lines.iter().map(|l| (l.stderr, text(&l.spans))).collect()
}

fn silent(turn: &SwitchTurn) -> bool {
    turn.ui.is_empty() && turn.unended.is_empty() && turn.lines.is_empty()
}

fn line(s: &str) -> SwitchEvent {
    SwitchEvent::Line(s.to_string())
}

const BUILDING: &str = "building '/nix/store/0a-hello-1.drv'...";

#[test]
fn a_build_is_followed_line_by_line() {
    let mut session = SwitchSession::new().unwrap();
    let turn = session.step(line(BUILDING));
    assert_eq!(turn.ui.len(), 3);
    assert!(silent(&session.step(SwitchEvent::Unreadable)));
    assert_eq!(session.stage(), SwitchStage::Streaming);
}

#[test]
fn a_build_that_is_complete_ends_the_session() {
    let mut session = SwitchSession::new().unwrap();
    session.step(line(BUILDING));
    let turn = session.step(line("--- Switch Complete ---"));
    assert_eq!(session.stage(), SwitchStage::Ended);
    assert!(matches!(&turn.ui[0], UiAction::FinishSpinner { stem, .. } if stem == "hello-1"));
    assert!(matches!(&turn.ui[1], UiAction::ClearMain));
    assert!(matches!(&turn.ui[2], UiAction::Print(m) if text(m) == "✨ System solidified."));
    assert!(turn.lines.is_empty());
}

#[test]
fn a_build_that_failed_ends_the_session() {
    let mut session = SwitchSession::new().unwrap();
    session.step(line(BUILDING));
    let turn = session.step(line("--- Switch Failed with code 1 ---"));
    assert_eq!(session.stage(), SwitchStage::Ended);
    assert_eq!(turn.ui.len(), 2);
    assert_eq!(lines(&turn), vec![(true, "\n❌ Build failed. Check the logs above.".to_string())]);
}

#[test]
fn an_interrupt_cancels_the_build() {
    let mut session = SwitchSession::new().unwrap();
    session.step(line(BUILDING));
    let turn = session.step(SwitchEvent::Interrupted);
    assert_eq!(session.stage(), SwitchStage::Cancelling);
    assert_eq!(text(&turn.unended), "\nCancelling build... ");
    assert_eq!(turn.ui.len(), 2);
    let turn = session.step(SwitchEvent::Cancelled("Sent SIGTERM to process group 7".to_string()));
    assert_eq!(session.stage(), SwitchStage::Ended);
    assert_eq!(lines(&turn), vec![(true, "Sent SIGTERM to process group 7".to_string())]);
}

#[test]
fn a_cancellation_that_fails_is_told() {
    let mut session = SwitchSession::new().unwrap();
    session.step(SwitchEvent::Interrupted);
    let turn = session.step(SwitchEvent::NotCancelled("Root only".to_string()));
    assert_eq!(lines(&turn), vec![(true, "(cancel failed: Root only)".to_string())]);
}

#[test]
fn a_stream_that_closes_ends_the_session() {
    let mut session = SwitchSession::new().unwrap();
    assert!(silent(&session.step(SwitchEvent::Closed)));
    assert_eq!(session.stage(), SwitchStage::Ended);
    assert!(silent(&session.step(line("--- Switch Complete ---"))));
    assert!(silent(&session.step(SwitchEvent::Interrupted)));
}

#[test]
fn lines_around_a_switch() {
    assert_eq!(text(&upload_message()), "🏔️  Uploading glacier configuration");
    let l = rebuilding_line("desktop");
    assert_eq!((l.stderr, text(&l.spans)), (false, "⚙️  Rebuilding desktop...".to_string()));
}

#[test]
fn the_command_that_installs() {
    let c = install_command(".#box");
    assert_eq!(c.program, "nixos-install");
    assert_eq!(c.args, vec!["--flake", ".#box", "--verbose", "--show-trace"]);
    let l = installing_line(".#box");
    assert_eq!(text(&l.spans), "\n❄️  Installing NixOS for .#box...");
}

#[test]
fn an_installation_that_says_so_is_finished() {
    for last in ["installation finished!", "--- Switch Complete ---"] {
        let mut log = InstallLog::new().unwrap();
        assert!(!log.finished());
        log.line(BUILDING);
        assert_eq!(log.line(last).len(), 3);
        assert!(log.finished());
        assert!(log.line(BUILDING).is_empty());
        let (ok, ui) = log.exit(true);
        assert!(ok && ui.is_empty());
    }
}

#[test]
fn an_installation_that_ends_well_without_saying_so() {
    let mut log = InstallLog::new().unwrap();
    log.line(BUILDING);
    let (ok, ui) = log.exit(true);
    assert!(ok);
    assert_eq!(ui.len(), 3);
    assert!(!log.finished());
}

#[test]
fn an_installation_that_ends_badly() {
    let mut log = InstallLog::new().unwrap();
    log.line(BUILDING);
    let (ok, ui) = log.exit(false);
    assert!(!ok);
    assert!(matches!(&ui[0], UiAction::FinishSpinner { message, .. } if text(message) == "✘ Failed: hello-1"));
    assert!(matches!(&ui[1], UiAction::ClearMain));
    let mut log = InstallLog::new().unwrap();
    log.line("installation finished!");
    let (ok, ui) = log.exit(false);
    assert!(!ok);
    assert_eq!(ui.len(), 1);
}

#[test]
fn a_line_with_an_error_is_taken_twice() {
    let mut log = InstallLog::new().unwrap();
    assert_eq!(log.line("error: flake not found").len(), 2);
    assert_eq!(log.line("--- Switch Failed with code 1 ---").len(), 2);
    assert_eq!(log.line("copying").len(), 1);
    assert_eq!(log.line("error: build of '/nix/store/0a-hello-1.drv' failed").len(), 0);
    log.line(BUILDING);
    assert_eq!(log.line("error: build of '/nix/store/0a-hello-1.drv' failed").len(), 1);
}
