use glacier::log::{waiting_message, LogProcessor, UiAction};
use glacier::style::{Span, Style};

fn text(spans: &[Span]) -> String {
    spans.iter().map(|s| s.text.as_str()).collect()
}

/// The actions in short.
fn short(actions: &[UiAction]) -> Vec<String> {
    actions
        .iter()
        .map(|a| match a {
            UiAction::SetLength(n) => format!("length {}", n),
            UiAction::Advance => "advance".to_string(),
            UiAction::MainMessage(m) => format!("main {}", text(m)),
            UiAction::AddSpinner { stem, message } => format!("add {} {}", stem, text(message)),
            UiAction::SpinnerMessage { stem, message } => format!("on {} {}", stem, text(message)),
            UiAction::FinishSpinner { stem, message } => format!("end {} {}", stem, text(message)),
            UiAction::PrintAbove(m) => format!("above {}", text(m)),
            UiAction::ClearMain => "clear".to_string(),
            UiAction::Print(m) => format!("print {}", text(m)),
        })
        .collect()
}

fn building(stem: &str) -> String {
    format!("building '/nix/store/0a1b2c-{}.drv'...", stem)
}

fn processor() -> LogProcessor {
    LogProcessor::new().unwrap()
}

#[test]
fn the_prefix_ends_before_the_version() {
    assert_eq!(LogProcessor::short_prefix("hello-2.12"), "hello");
    assert_eq!(LogProcessor::short_prefix("gtk+-3.24"), "gtk+");
    assert_eq!(LogProcessor::short_prefix("python3-requests-2.31-x"), "python3-requests");
    assert_eq!(LogProcessor::short_prefix("no-version"), "no-version");
    assert_eq!(LogProcessor::short_prefix("a-1-2"), "a");
    assert_eq!(LogProcessor::short_prefix("-1"), "");
    assert_eq!(LogProcessor::short_prefix("ü-9"), "ü");
    assert_eq!(LogProcessor::short_prefix("trailing-"), "trailing-");
    assert_eq!(LogProcessor::short_prefix(""), "");
}

#[test]
fn a_total_sets_the_length_of_the_bar() {
    let mut p = processor();
    assert_eq!(short(&p.process("these 7 derivations will be built:")), vec!["length 7"]);
    assert!(p.process("these 99999999999999999999 derivations will be built:").is_empty());
}

#[test]
fn a_derivation_gets_a_spinner() {
    let mut p = processor();
    assert_eq!(
        short(&p.process(&building("hello-2.12"))),
        vec!["advance", "main Forging hello-2.12...", "add hello-2.12 hello-2.12"]
    );
    assert!(p.is_active("hello-2.12"));
    assert_eq!(p.stem_of("hello"), Some("hello-2.12".to_string()));
}

#[test]
fn a_derivation_that_is_being_built_is_not_started_again() {
    let mut p = processor();
    p.process(&building("hello-2.12"));
    assert!(p.process(&building("hello-2.12")).is_empty());
}

#[test]
fn a_failure_stops_the_spinner() {
    let mut p = processor();
    p.process(&building("hello-2.12"));
    let line = "error: build of '/nix/store/0a1b2c-hello-2.12.drv' failed";
    assert_eq!(short(&p.process(line)), vec!["end hello-2.12 ✘ Failed: hello-2.12"]);
    assert!(!p.is_active("hello-2.12"));
    assert_eq!(p.stem_of("hello"), None);
    assert!(p.process(line).is_empty());
}

#[test]
fn a_message_is_shown_at_its_spinner() {
    let mut p = processor();
    p.process(&building("hello-2.12"));
    assert_eq!(
        short(&p.process("hello> unpacking sources")),
        vec!["on hello-2.12 hello-2.12: unpacking sources"]
    );
    assert!(p.process("world> unpacking sources").is_empty());
}

#[test]
fn a_message_that_looks_like_an_error_is_printed_too() {
    let mut p = processor();
    p.process(&building("hello-2.12"));
    assert_eq!(
        short(&p.process("hello> ERROR: no")),
        vec!["on hello-2.12 hello-2.12: ERROR: no", "above   hello-2.12 │ ERROR: no"]
    );
}

#[test]
fn a_prefix_stands_for_the_derivation_that_started_last() {
    let mut p = processor();
    p.process(&building("hello-1"));
    p.process(&building("hello-2"));
    assert_eq!(short(&p.process("hello> x")), vec!["on hello-2 hello-2: x"]);
    p.finalize("hello-2", true);
    assert!(p.process("hello> y").is_empty());
    assert!(p.is_active("hello-1"));
}

#[test]
fn lines_that_say_nothing_show_nothing() {
    let mut p = processor();
    for line in ["", "   ", "/nix/store/0123456789abcdefghijklmnopqrstuv-x", "hello>"] {
        assert!(p.process(line).is_empty(), "{:?}", line);
    }
}

#[test]
fn any_other_line_is_printed_above() {
    let mut p = processor();
    assert_eq!(short(&p.process("  evaluating  ")), vec!["above   evaluating"]);
}

#[test]
fn the_end_of_a_build_stops_every_spinner() {
    let mut p = processor();
    p.process(&building("a-1"));
    p.process(&building("b-2"));
    let actions = p.finish();
    assert_eq!(short(&actions), vec!["end a-1 ✔ a-1", "end b-2 ✔ b-2", "clear", "print ✨ System solidified."]);
    assert!(!p.is_active("a-1") && !p.is_active("b-2"));
    assert_eq!(short(&p.finish()), vec!["clear", "print ✨ System solidified."]);
}

#[test]
fn giving_up_stops_every_spinner_as_failed() {
    let mut p = processor();
    p.process(&building("a-1"));
    assert_eq!(short(&p.abort()), vec!["end a-1 ✘ Failed: a-1", "clear"]);
    assert_eq!(short(&p.abort()), vec!["clear"]);
}

#[test]
fn a_derivation_that_ends_is_marked_by_color() {
    let mut p = processor();
    p.process(&building("a-1"));
    match &p.finalize("a-1", true)[0] {
        UiAction::FinishSpinner { message, .. } => {
            let styles: Vec<Style> = message.iter().map(|s| s.style).collect();
            assert_eq!(styles, vec![Style::Green, Style::Plain, Style::Dimmed]);
        }
        other => panic!("{:?}", other),
    }
    assert!(p.finalize("a-1", true).is_empty());
}

#[test]
fn every_spinner_that_is_added_is_stopped_once() {
    let mut p = processor();
    let mut actions = Vec::new();
    for line in [
        building("a-1"),
        building("b-1"),
        "a> error: x".to_string(),
        "error: build of '/nix/store/0a-a-1.drv' failed".to_string(),
        building("a-1"),
        building("c"),
    ] {
        actions.extend(p.process(&line));
    }
    actions.extend(p.abort());
    let all = short(&actions);
    assert_eq!(all.iter().filter(|a| a.starts_with("add ")).count(), 4);
    assert_eq!(all.iter().filter(|a| a.starts_with("end ")).count(), 4);
}

#[test]
fn the_bar_waits_at_first() {
    assert_eq!(text(&waiting_message()), "Waiting for Nix...");
}
