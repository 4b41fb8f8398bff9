use glacier::client::{SwitchEvent, SwitchSession, SwitchStage};
use glacier::daemon::{
    authorize, switch, Build, BuildAction, BuildEvent, BuildStage, Caller, Glacier, Refusal,
    Upload, UploadReply, UploadRequest,
};

#[test]
fn only_root_may_ask() {
    assert_eq!(authorize(Caller::User(0)), Ok(()));
    assert_eq!(authorize(Caller::User(1000)), Err(Refusal::RootOnly));
    assert_eq!(authorize(Caller::Unknown), Err(Refusal::NoSender));
    assert_eq!(Refusal::RootOnly.message(), "Root only");
    assert_eq!(Refusal::NoSender.message(), "No sender");
}

#[test]
fn a_build_that_runs_can_be_cancelled_once() {
    let mut glacier = Glacier::new();
    glacier.store(4711);
    let cancel = glacier.cancel(Caller::User(0)).unwrap();
    assert_eq!(cancel.target, Some(-4711));
    assert_eq!(cancel.message, "Sent SIGTERM to process group 4711");
    let cancel = glacier.cancel(Caller::User(0)).unwrap();
    assert_eq!(cancel.target, None);
    assert_eq!(cancel.message, "No active build to cancel");
}

#[test]
fn a_build_that_is_over_cannot_be_cancelled() {
    let mut glacier = Glacier::new();
    glacier.store(5);
    glacier.clear(5);
    assert_eq!(glacier.cancel(Caller::User(0)).unwrap().target, None);
}

#[test]
fn a_cancellation_of_another_user_changes_nothing() {
    let mut glacier = Glacier::new();
    glacier.store(5);
    assert!(matches!(glacier.cancel(Caller::User(1)), Err(Refusal::RootOnly)));
    assert!(matches!(glacier.cancel(Caller::Unknown), Err(Refusal::NoSender)));
    assert_eq!(glacier.cancel(Caller::User(0)).unwrap().target, Some(-5));
}

#[test]
fn process_numbers_are_negated_in_their_width() {
    for pid in [1u32, 0x7fff_ffff, 0x8000_0000, 0x8000_0001, u32::MAX] {
        let mut glacier = Glacier::new();
        glacier.store(pid);
        let target = glacier.cancel(Caller::User(0)).unwrap().target;
        assert_eq!(target, Some((pid as i32).wrapping_neg()));
    }
}

fn paths() -> Vec<Vec<u8>> {
    vec![b"/src/flake.nix".to_vec(), vec![b'/', b's', 0xff], b"/src/hosts".to_vec()]
}

#[test]
fn an_upload_copies_the_entries_of_a_directory() {
    let (mut upload, first) = Upload::new(Caller::User(0), "/src".to_string());
    assert!(matches!(&first, UploadRequest::CreateDir(d) if d == "/var/lib/glacier"));
    let next = upload.step(UploadReply::Done);
    assert!(matches!(&next, UploadRequest::List(d) if d == "/src"));
    match upload.step(UploadReply::Entries(paths())) {
        UploadRequest::CopyTo { items, dir, overwrite } => {
            assert_eq!(items, paths());
            assert_eq!(dir, "/var/lib/glacier");
            assert!(overwrite);
        }
        other => panic!("{:?}", other),
    }
    match upload.step(UploadReply::Done) {
        UploadRequest::Succeed(m) => {
            assert_eq!(m, "Uploaded contents of /src to /var/lib/glacier")
        }
        other => panic!("{:?}", other),
    }
}

#[test]
fn an_upload_of_an_empty_directory_copies_nothing() {
    let (mut upload, _) = Upload::new(Caller::User(0), "/src".to_string());
    upload.step(UploadReply::Done);
    let next = upload.step(UploadReply::Entries(Vec::new()));
    assert!(matches!(&next, UploadRequest::CopyTo { items, .. } if items.is_empty()));
}

#[test]
fn an_upload_ends_with_the_error_that_is_hit() {
    for (k, wanted) in ["no room", "no room", "Copy failed: no room"].iter().enumerate() {
        let (mut upload, _) = Upload::new(Caller::User(0), "/src".to_string());
        if k > 0 {
            upload.step(UploadReply::Done);
        }
        if k > 1 {
            upload.step(UploadReply::Entries(paths()));
        }
        match upload.step(UploadReply::Failed("no room".to_string())) {
            UploadRequest::Fail(e) => assert_eq!(&e, wanted),
            other => panic!("{:?}", other),
        }
    }
}

#[test]
fn an_upload_of_another_user_touches_nothing() {
    let (_, first) = Upload::new(Caller::User(1000), "/src".to_string());
    assert!(matches!(&first, UploadRequest::Fail(e) if e == "Root only"));
    let (_, first) = Upload::new(Caller::Unknown, "/src".to_string());
    assert!(matches!(&first, UploadRequest::Fail(e) if e == "No sender"));
}

#[test]
fn a_switch_rebuilds_the_system() {
    let granted = switch(Caller::User(0), "desktop").unwrap();
    assert_eq!(granted.command.program, "nixos-rebuild");
    assert_eq!(granted.dir, "/var/lib/glacier");
    assert_eq!(
        granted.command.args,
        vec!["switch", "--flake", ".#desktop", "--log-format", "bar-with-logs", "-L", "--show-trace"]
    );
    assert_eq!(granted.message, "Switching to desktop...");
    assert!(matches!(switch(Caller::User(7), "desktop"), Err(Refusal::RootOnly)));
    assert!(matches!(switch(Caller::Unknown, "desktop"), Err(Refusal::NoSender)));
}

/// The only line that is sent.
fn emitted(actions: Vec<BuildAction>) -> String {
    let mut lines: Vec<String> = actions
        .into_iter()
        .filter_map(|a| match a {
            BuildAction::Emit(line) => Some(line),
            _ => None,
        })
        .collect();
    assert_eq!(lines.len(), 1);
    lines.remove(0)
}

/// Carries out what is to be noted.
fn note(glacier: &mut Glacier, actions: Vec<BuildAction>) {
    for action in actions {
        match action {
            BuildAction::StorePid(pid) => glacier.store(pid),
            BuildAction::ClearPid(pid) => glacier.clear(pid),
            BuildAction::Emit(_) => {}
        }
    }
}

/// A build that runs in this process, and is noted.
fn running(glacier: &mut Glacier, pid: u32) -> Build {
    let mut build = Build::new();
    note(glacier, build.step(BuildEvent::Started(Some(pid))));
    build
}

#[test]
fn a_build_hands_on_its_lines_and_reports() {
    let mut build = Build::new();
    assert_eq!(build.stage(), BuildStage::Starting);
    let actions = build.step(BuildEvent::Started(Some(9)));
    assert!(matches!(actions[..], [BuildAction::StorePid(9)]));
    assert_eq!(emitted(build.step(BuildEvent::Stdout(Some("out".to_string())))), "out");
    assert_eq!(emitted(build.step(BuildEvent::Stderr(Some("err".to_string())))), "err");
    assert!(build.step(BuildEvent::Stderr(None)).is_empty());
    assert_eq!(build.stage(), BuildStage::Reading);
    assert!(build.step(BuildEvent::Stdout(None)).is_empty());
    assert_eq!(build.stage(), BuildStage::Waiting);
    assert!(build.step(BuildEvent::Stderr(Some("late".to_string()))).is_empty());
    let actions = build.step(BuildEvent::Succeeded);
    assert!(matches!(&actions[..],
        [BuildAction::ClearPid(9), BuildAction::Emit(line)] if line == "--- Switch Complete ---"));
    assert_eq!(build.stage(), BuildStage::Ended);
    assert!(build.step(BuildEvent::Succeeded).is_empty());
}

#[test]
fn the_build_that_runs_on_can_be_cancelled() {
    let mut glacier = Glacier::new();
    let mut a = running(&mut glacier, 10);
    running(&mut glacier, 20);
    note(&mut glacier, a.step(BuildEvent::Stdout(None)));
    note(&mut glacier, a.step(BuildEvent::Succeeded));
    let cancel = glacier.cancel(Caller::User(0)).unwrap();
    assert_eq!(cancel.target, Some(-20));
    assert_eq!(cancel.message, "Sent SIGTERM to process group 20");
    assert_eq!(glacier.cancel(Caller::User(0)).unwrap().target, None);
}

#[test]
fn the_earlier_build_can_be_cancelled_once_the_later_has_ended() {
    let mut glacier = Glacier::new();
    running(&mut glacier, 10);
    let mut b = running(&mut glacier, 20);
    note(&mut glacier, b.step(BuildEvent::Stdout(None)));
    note(&mut glacier, b.step(BuildEvent::Failed(Some(1))));
    assert_eq!(glacier.cancel(Caller::User(0)).unwrap().target, Some(-10));
}

#[test]
fn builds_that_overlap_are_cancelled_one_by_one() {
    let mut glacier = Glacier::new();
    let mut a = running(&mut glacier, 10);
    running(&mut glacier, 20);
    assert_eq!(glacier.cancel(Caller::User(0)).unwrap().target, Some(-20));
    assert_eq!(glacier.cancel(Caller::User(0)).unwrap().target, Some(-10));
    assert_eq!(glacier.cancel(Caller::User(0)).unwrap().target, None);
    note(&mut glacier, a.step(BuildEvent::Stdout(None)));
    note(&mut glacier, a.step(BuildEvent::Failed(None)));
    assert_eq!(glacier.cancel(Caller::User(0)).unwrap().target, None);
}

#[test]
fn a_build_whose_output_cannot_be_read_can_be_cancelled() {
    let mut glacier = Glacier::new();
    let mut build = running(&mut glacier, 7);
    note(&mut glacier, build.step(BuildEvent::Stdout(None)));
    assert_eq!(glacier.cancel(Caller::User(0)).unwrap().target, Some(-7));
}

#[test]
fn a_build_that_was_reported_is_not_noted() {
    for end in [BuildEvent::Succeeded, BuildEvent::Failed(None), BuildEvent::NotAwaited("x".to_string())] {
        let mut glacier = Glacier::new();
        let mut build = running(&mut glacier, 7);
        note(&mut glacier, build.step(BuildEvent::Stdout(None)));
        note(&mut glacier, build.step(end));
        assert_eq!(glacier.cancel(Caller::User(0)).unwrap().target, None);
    }
}

#[test]
fn a_process_that_is_not_noted_is_forgotten_without_effect() {
    let mut glacier = Glacier::new();
    glacier.store(1);
    glacier.clear(2);
    assert_eq!(glacier.cancel(Caller::User(0)).unwrap().target, Some(-1));
}

#[test]
fn a_build_reports_its_failure() {
    for (event, report) in [
        (BuildEvent::Failed(Some(2)), "--- Switch Failed with code 2 ---"),
        (BuildEvent::Failed(Some(-3)), "--- Switch Failed with code -3 ---"),
        (BuildEvent::Failed(None), "--- Switch Failed with code 1 ---"),
        (BuildEvent::NotAwaited("no child".to_string()), "--- Switch Error: no child ---"),
    ] {
        let mut build = Build::new();
        build.step(BuildEvent::Started(None));
        build.step(BuildEvent::Stdout(None));
        assert_eq!(emitted(build.step(event)), report);
    }
}

#[test]
fn a_build_that_does_not_start_is_told() {
    let mut build = Build::new();
    assert_eq!(emitted(build.step(BuildEvent::NotStarted("not found".to_string()))), "Error: not found");
    assert_eq!(build.stage(), BuildStage::Ended);
}

#[test]
fn a_follower_understands_the_report() {
    for (event, ui, lines) in [
        (BuildEvent::Succeeded, 2, 0),
        (BuildEvent::Failed(Some(1)), 1, 1),
        (BuildEvent::Failed(Some(i32::MIN)), 1, 1),
    ] {
        let mut build = Build::new();
        build.step(BuildEvent::Started(Some(3)));
        build.step(BuildEvent::Stdout(None));
        let mut session = SwitchSession::new().unwrap();
        let turn = session.step(SwitchEvent::Line(emitted(build.step(event))));
        assert_eq!(session.stage(), SwitchStage::Ended);
        assert_eq!((turn.ui.len(), turn.lines.len()), (ui, lines));
    }
}

#[test]
fn a_follower_waits_on_after_an_error_of_the_daemon() {
    let mut session = SwitchSession::new().unwrap();
    session.step(SwitchEvent::Line("--- Switch Error: no child ---".to_string()));
    assert_eq!(session.stage(), SwitchStage::Streaming);
}
