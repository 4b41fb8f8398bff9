use glacier::flow::{Outcome, Reply, Request, Turn};
use glacier::init::Init;
use glacier::style::Span;

fn text(spans: &[Span]) -> String {
    spans.iter().map(|s| s.text.as_str()).collect()
}

fn lines(turn: &Turn) -> Vec<(bool, String)> {
    turn.lines.iter().map(|l| (l.stderr, text(&l.spans))).collect()
}

/// Replies to a question: the option at `pick`, or the default.
fn answer(turn: &Turn, pick: usize) -> Reply {
    match &turn.request {
        Request::Input { .. } => Reply::Text(None),
        Request::Select { options, .. } => Reply::Choice(Some(pick.min(options.len() - 1))),
        other => panic!("{:?}", other),
    }
}

#[test]
fn init_looks_for_the_three_files_first() {
    let (mut init, turn) = Init::new();
    assert!(matches!(&turn.request, Request::Exists(p) if p == "flake.nix"));
    let turn = init.step(Reply::Exists(false));
    assert!(matches!(&turn.request, Request::Exists(p) if p == "configuration.nix"));
    let turn = init.step(Reply::Exists(false));
    assert!(matches!(&turn.request, Request::Exists(p) if p == "home.nix"));
    let turn = init.step(Reply::Exists(false));
    assert_eq!(lines(&turn), vec![(false, "🏔️  Setting up your Glacier configuration\n".to_string())]);
    assert!(matches!(&turn.request,
        Request::Input { prompt, default } if prompt == "System hostname" && default == "desktop"));
}

#[test]
fn init_overwrites_nothing() {
    for k in 0..3 {
        let (mut init, _) = Init::new();
        for _ in 0..k {
            init.step(Reply::Exists(false));
        }
        let turn = init.step(Reply::Exists(true));
        let file = ["flake.nix", "configuration.nix", "home.nix"][k];
        assert_eq!(lines(&turn), vec![(true, format!("{} already exists in this directory.", file))]);
        assert!(matches!(turn.request, Request::End(Outcome::Exit)));
    }
}

#[test]
fn init_asks_and_writes_three_files() {
    let (mut init, _) = Init::new();
    init.step(Reply::Exists(false));
    init.step(Reply::Exists(false));
    let mut turn = init.step(Reply::Exists(false));
    let mut prompts = Vec::new();
    for _ in 0..13 {
        match &turn.request {
            Request::Input { prompt, .. } | Request::Select { prompt, .. } => prompts.push(prompt.clone()),
            other => panic!("{:?}", other),
        }
        let reply = answer(&turn, 1);
        turn = init.step(reply);
    }
    assert_eq!(
        prompts,
        vec![
            "System hostname",
            "User",
            "Full Name",
            "Email Address",
            "Window manager",
            "Terminal",
            "Display manager",
            "Launcher",
            "Browser",
            "Shell",
            "Editor",
            "Wallpaper",
            "Theme",
        ]
    );
    match &turn.request {
        Request::WriteFile { path, contents } => {
            assert_eq!(path, "flake.nix");
            assert!(contents.contains("glacier.glacierModules.noctalia"));
            assert!(contents.contains("./hosts/desktop.nix"));
        }
        other => panic!("{:?}", other),
    }
    let turn = init.step(Reply::Done);
    match &turn.request {
        Request::WriteFile { path, contents } => {
            assert_eq!(path, "configuration.nix");
            assert!(contents.contains("glacierThemeModules.nord"));
            assert!(contents.contains("glacier.users.john"));
        }
        other => panic!("{:?}", other),
    }
    let turn = init.step(Reply::Done);
    match &turn.request {
        Request::WriteFile { path, contents } => {
            assert_eq!(path, "home.nix");
            assert!(contents.contains("defaultWallpapers.mountain"));
        }
        other => panic!("{:?}", other),
    }
    let turn = init.step(Reply::Done);
    assert_eq!(
        lines(&turn),
        vec![
            (false, "\n✨ Successfully created a Glacier flake.".to_string()),
            (false, "   Use sudo glacierctl switch desktop to switch to your new config.".to_string()),
        ]
    );
    assert!(matches!(turn.request, Request::End(Outcome::Done)));
}

#[test]
fn init_ends_where_a_file_cannot_be_written() {
    let (mut init, _) = Init::new();
    for _ in 0..3 {
        init.step(Reply::Exists(false));
    }
    for i in 0..13 {
        init.step(if i < 4 { Reply::Text(Some("x".to_string())) } else { Reply::Choice(None) });
    }
    let turn = init.step(Reply::Failed);
    assert!(matches!(turn.request, Request::End(Outcome::Broken)));
    let turn = init.step(Reply::Done);
    assert!(turn.lines.is_empty());
    assert!(matches!(turn.request, Request::End(Outcome::Broken)));
}

#[test]
fn init_takes_the_first_option_where_none_can_be_chosen() {
    let (mut init, _) = Init::new();
    for _ in 0..3 {
        init.step(Reply::Exists(false));
    }
    let mut turn = init.step(Reply::Text(Some("box".to_string())));
    for i in 1..13 {
        turn = init.step(if i < 4 { Reply::Text(None) } else { Reply::Choice(None) });
    }
    match &turn.request {
        Request::WriteFile { contents, .. } => {
            assert!(contents.contains("glacier.glacierModules.exoshell"));
            assert!(contents.contains("./hosts/box.nix"));
        }
        other => panic!("{:?}", other),
    }
}
